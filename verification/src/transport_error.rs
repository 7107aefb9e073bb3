//! Transport-level errors (RFC 9000, section 20.1).
use vstd::prelude::*;

use crate::coding::UnexpectedEnd;
use crate::frame::Type;
use crate::varint::{read_var_at, spec_varint_decode, spec_varint_encode, write_var, VARINT_BOUND};

verus! {

/// Transport-level error code
#[derive(Copy, Clone, Debug, PartialEq, Eq, Structural)]
pub struct Code(pub u64);

impl View for Code {
    type V = u64;

    open spec fn view(&self) -> u64 {
        self.0
    }
}

impl Code {
    /// The server refused to accept a new connection
    #[verifier::allow_in_spec]
    #[allow(non_snake_case)]
    pub fn CONNECTION_REFUSED() -> Code
        returns
            Code(0x2),
    {
        Code(0x2)
    }

    /// Detected an error with protocol compliance that was not covered by more specific error
    /// codes
    #[verifier::allow_in_spec]
    #[allow(non_snake_case)]
    pub fn PROTOCOL_VIOLATION() -> Code
        returns
            Code(0xA),
    {
        Code(0xA)
    }

    /// Received transport parameters that were badly formatted, included an invalid value, was
    /// absent even though it is mandatory, was present though it is forbidden, or is otherwise in
    /// error
    #[verifier::allow_in_spec]
    #[allow(non_snake_case)]
    pub fn TRANSPORT_PARAMETER_ERROR() -> Code
        returns
            Code(0x8),
    {
        Code(0x8)
    }

    /// An endpoint received more data than it permitted in its advertised data limits
    #[verifier::allow_in_spec]
    #[allow(non_snake_case)]
    pub fn FLOW_CONTROL_ERROR() -> Code
        returns
            Code(0x3),
    {
        Code(0x3)
    }

    /// An endpoint received a STREAM frame containing data that exceeded the previously
    /// established final size, or a changed final size
    #[verifier::allow_in_spec]
    #[allow(non_snake_case)]
    pub fn FINAL_SIZE_ERROR() -> Code
        returns
            Code(0x6),
    {
        Code(0x6)
    }

    /// An endpoint received a frame for a stream identifier that exceeded its advertised stream
    /// limit for the corresponding stream type
    #[verifier::allow_in_spec]
    #[allow(non_snake_case)]
    pub fn STREAM_LIMIT_ERROR() -> Code
        returns
            Code(0x4),
    {
        Code(0x4)
    }

    /// An endpoint received a frame for a stream that was not in a state that permitted that
    /// frame
    #[verifier::allow_in_spec]
    #[allow(non_snake_case)]
    pub fn STREAM_STATE_ERROR() -> Code
        returns
            Code(0x5),
    {
        Code(0x5)
    }

    /// Received a frame that was badly formatted
    #[verifier::allow_in_spec]
    #[allow(non_snake_case)]
    pub fn FRAME_ENCODING_ERROR() -> Code
        returns
            Code(0x7),
    {
        Code(0x7)
    }

    /// The endpoint has reached the confidentiality or integrity limit for the AEAD algorithm
    #[verifier::allow_in_spec]
    #[allow(non_snake_case)]
    pub fn AEAD_LIMIT_REACHED() -> Code
        returns
            Code(0xF),
    {
        Code(0xF)
    }

    /// Key update error
    #[verifier::allow_in_spec]
    #[allow(non_snake_case)]
    pub fn KEY_UPDATE_ERROR() -> Code
        returns
            Code(0xE),
    {
        Code(0xE)
    }

    /// The application or application protocol caused the connection to be closed during the
    /// handshake
    #[verifier::allow_in_spec]
    #[allow(non_snake_case)]
    pub fn APPLICATION_ERROR() -> Code
        returns
            Code(0xC),
    {
        Code(0xC)
    }

    /// Create QUIC error code from TLS alert code
    pub fn crypto(code: u8) -> (c: Code)
        ensures
            c@ == 0x100 + code,
    {
        let x = code as u64;
        assert(0x100u64 | x == 0x100 + x) by (bit_vector)
            requires
                x < 0x100,
        ;
        Code(0x100 | x)
    }

    /// Append the varint encoding of this code to `w`
    pub fn encode(&self, w: &mut Vec<u8>)
        requires
            self@ < VARINT_BOUND,
        ensures
            final(w)@ == old(w)@ + spec_varint_encode(self@),
    {
        write_var(w, self.0);
    }

    /// Decode a code from the start of `r`, returning it with the number of bytes read
    pub fn decode(r: &[u8]) -> (res: Result<(Code, usize), UnexpectedEnd>)
        ensures
            match spec_varint_decode(r@) {
                Some((v, n)) => res == Ok::<(Code, usize), UnexpectedEnd>((Code(v), n as usize)),
                None => res is Err,
            },
    {
        assert(r@.subrange(0, r@.len() as int) =~= r@);
        match read_var_at(r, 0) {
            Ok((v, n)) => Ok((Code(v), n)),
            Err(e) => Err(e),
        }
    }
}

/// Transport-level errors occur when a peer violates the protocol specification
#[derive(Debug, Clone, PartialEq, Eq)]
pub struct Error {
    /// Type of error
    pub code: Code,
    /// Frame type that triggered the error
    pub frame: Option<Type>,
    /// Human-readable explanation of the reason
    pub reason: String,
}

impl Error {
    /// An error with the given code and reason, not tied to a frame
    pub fn with_code(code: Code, reason: &str) -> (e: Error)
        ensures
            e.code == code,
            e.frame is None,
            e.reason@ == reason@,
    {
        Error { code, frame: None, reason: reason.to_owned() }
    }

    /// A `CONNECTION_REFUSED` error
    #[allow(non_snake_case)]
    pub fn CONNECTION_REFUSED(reason: &str) -> (e: Error)
        ensures
            e.code == Code::CONNECTION_REFUSED(),
            e.frame is None,
            e.reason@ == reason@,
    {
        Error::with_code(Code::CONNECTION_REFUSED(), reason)
    }

    /// A `PROTOCOL_VIOLATION` error
    #[allow(non_snake_case)]
    pub fn PROTOCOL_VIOLATION(reason: &str) -> (e: Error)
        ensures
            e.code == Code::PROTOCOL_VIOLATION(),
            e.frame is None,
            e.reason@ == reason@,
    {
        Error::with_code(Code::PROTOCOL_VIOLATION(), reason)
    }

    /// A `TRANSPORT_PARAMETER_ERROR` error
    #[allow(non_snake_case)]
    pub fn TRANSPORT_PARAMETER_ERROR(reason: &str) -> (e: Error)
        ensures
            e.code == Code::TRANSPORT_PARAMETER_ERROR(),
            e.frame is None,
            e.reason@ == reason@,
    {
        Error::with_code(Code::TRANSPORT_PARAMETER_ERROR(), reason)
    }

    /// A `FRAME_ENCODING_ERROR` error
    #[allow(non_snake_case)]
    pub fn FRAME_ENCODING_ERROR(reason: &str) -> (e: Error)
        ensures
            e.code == Code::FRAME_ENCODING_ERROR(),
            e.frame is None,
            e.reason@ == reason@,
    {
        Error::with_code(Code::FRAME_ENCODING_ERROR(), reason)
    }

    /// An `AEAD_LIMIT_REACHED` error
    #[allow(non_snake_case)]
    pub fn AEAD_LIMIT_REACHED(reason: &str) -> (e: Error)
        ensures
            e.code == Code::AEAD_LIMIT_REACHED(),
            e.frame is None,
            e.reason@ == reason@,
    {
        Error::with_code(Code::AEAD_LIMIT_REACHED(), reason)
    }

    /// A `KEY_UPDATE_ERROR` error
    #[allow(non_snake_case)]
    pub fn KEY_UPDATE_ERROR(reason: &str) -> (e: Error)
        ensures
            e.code == Code::KEY_UPDATE_ERROR(),
            e.frame is None,
            e.reason@ == reason@,
    {
        Error::with_code(Code::KEY_UPDATE_ERROR(), reason)
    }

    /// A `STREAM_LIMIT_ERROR` error
    #[allow(non_snake_case)]
    pub fn STREAM_LIMIT_ERROR(reason: &str) -> (e: Error)
        ensures
            e.code == Code::STREAM_LIMIT_ERROR(),
            e.frame is None,
            e.reason@ == reason@,
    {
        Error::with_code(Code::STREAM_LIMIT_ERROR(), reason)
    }

    /// A `FLOW_CONTROL_ERROR` error
    #[allow(non_snake_case)]
    pub fn FLOW_CONTROL_ERROR(reason: &str) -> (e: Error)
        ensures
            e.code == Code::FLOW_CONTROL_ERROR(),
            e.frame is None,
            e.reason@ == reason@,
    {
        Error::with_code(Code::FLOW_CONTROL_ERROR(), reason)
    }

    /// A `FINAL_SIZE_ERROR` error
    #[allow(non_snake_case)]
    pub fn FINAL_SIZE_ERROR(reason: &str) -> (e: Error)
        ensures
            e.code == Code::FINAL_SIZE_ERROR(),
            e.frame is None,
            e.reason@ == reason@,
    {
        Error::with_code(Code::FINAL_SIZE_ERROR(), reason)
    }

    /// A `STREAM_STATE_ERROR` error
    #[allow(non_snake_case)]
    pub fn STREAM_STATE_ERROR(reason: &str) -> (e: Error)
        ensures
            e.code == Code::STREAM_STATE_ERROR(),
            e.frame is None,
            e.reason@ == reason@,
    {
        Error::with_code(Code::STREAM_STATE_ERROR(), reason)
    }

    /// An `APPLICATION_ERROR` error
    #[allow(non_snake_case)]
    pub fn APPLICATION_ERROR(reason: &str) -> (e: Error)
        ensures
            e.code == Code::APPLICATION_ERROR(),
            e.frame is None,
            e.reason@ == reason@,
    {
        Error::with_code(Code::APPLICATION_ERROR(), reason)
    }
}

} // verus!
