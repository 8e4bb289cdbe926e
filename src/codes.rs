//! The open enumerations of wire codes: a named variant for each assigned
//! value and one catch-all that keeps any other value as it came.
use vstd::prelude::*;

verus! {

/// The 32-bit error codes of RST_STREAM and GOAWAY.
#[derive(Debug, Clone, Copy, PartialEq, Eq, Structural)]
pub enum ErrorCode {
    /// The condition is not an error, as in a graceful shutdown.
    NO_ERROR,
    /// An unspecific protocol error.
    PROTOCOL_ERROR,
    /// An unexpected internal error.
    INTERNAL_ERROR,
    /// The peer violated the flow-control protocol.
    FLOW_CONTROL_ERROR,
    /// A SETTINGS frame was not acknowledged in time.
    SETTINGS_TIMEOUT,
    /// A frame arrived after the stream was half-closed.
    STREAM_CLOSED,
    /// A frame had an invalid size.
    FRAME_SIZE_ERROR,
    /// The stream was refused before any application processing.
    REFUSED_STREAM,
    /// The stream is no longer needed.
    CANCEL,
    /// The header compression context cannot be maintained.
    COMPRESSION_ERROR,
    /// The connection of a CONNECT request was reset or closed.
    CONNECT_ERROR,
    /// The peer may be generating excessive load.
    ENHANCE_YOUR_CALM,
    /// The transport does not meet minimum security requirements.
    INADEQUATE_SECURITY,
    /// HTTP/1.1 is required instead of HTTP/2.
    HTTP_1_1_REQUIRED,
    /// Any code without a name here.
    UNKNOWN(u32),
}

/// The error code that the word `v` stands for.
pub open spec fn error_code_of(v: u32) -> ErrorCode {
    match v {
        0x0 => ErrorCode::NO_ERROR,
        0x1 => ErrorCode::PROTOCOL_ERROR,
        0x2 => ErrorCode::INTERNAL_ERROR,
        0x3 => ErrorCode::FLOW_CONTROL_ERROR,
        0x4 => ErrorCode::SETTINGS_TIMEOUT,
        0x5 => ErrorCode::STREAM_CLOSED,
        0x6 => ErrorCode::FRAME_SIZE_ERROR,
        0x7 => ErrorCode::REFUSED_STREAM,
        0x8 => ErrorCode::CANCEL,
        0x9 => ErrorCode::COMPRESSION_ERROR,
        0xa => ErrorCode::CONNECT_ERROR,
        0xb => ErrorCode::ENHANCE_YOUR_CALM,
        0xc => ErrorCode::INADEQUATE_SECURITY,
        0xd => ErrorCode::HTTP_1_1_REQUIRED,
        _ => ErrorCode::UNKNOWN(v),
    }
}

impl ErrorCode {
    /// The word that stands for this code on the wire.
    pub open spec fn spec_code(self) -> u32 {
        match self {
            ErrorCode::NO_ERROR => 0x0,
            ErrorCode::PROTOCOL_ERROR => 0x1,
            ErrorCode::INTERNAL_ERROR => 0x2,
            ErrorCode::FLOW_CONTROL_ERROR => 0x3,
            ErrorCode::SETTINGS_TIMEOUT => 0x4,
            ErrorCode::STREAM_CLOSED => 0x5,
            ErrorCode::FRAME_SIZE_ERROR => 0x6,
            ErrorCode::REFUSED_STREAM => 0x7,
            ErrorCode::CANCEL => 0x8,
            ErrorCode::COMPRESSION_ERROR => 0x9,
            ErrorCode::CONNECT_ERROR => 0xa,
            ErrorCode::ENHANCE_YOUR_CALM => 0xb,
            ErrorCode::INADEQUATE_SECURITY => 0xc,
            ErrorCode::HTTP_1_1_REQUIRED => 0xd,
            ErrorCode::UNKNOWN(v) => v,
        }
    }

    /// A catch-all value is never one that has a name.
    pub open spec fn wf(self) -> bool {
        self matches ErrorCode::UNKNOWN(v) ==> v > 0xd
    }

    pub fn code(&self) -> (r: u32)
        ensures
            r == self.spec_code(),
    {
        match self {
            ErrorCode::NO_ERROR => 0x0,
            ErrorCode::PROTOCOL_ERROR => 0x1,
            ErrorCode::INTERNAL_ERROR => 0x2,
            ErrorCode::FLOW_CONTROL_ERROR => 0x3,
            ErrorCode::SETTINGS_TIMEOUT => 0x4,
            ErrorCode::STREAM_CLOSED => 0x5,
            ErrorCode::FRAME_SIZE_ERROR => 0x6,
            ErrorCode::REFUSED_STREAM => 0x7,
            ErrorCode::CANCEL => 0x8,
            ErrorCode::COMPRESSION_ERROR => 0x9,
            ErrorCode::CONNECT_ERROR => 0xa,
            ErrorCode::ENHANCE_YOUR_CALM => 0xb,
            ErrorCode::INADEQUATE_SECURITY => 0xc,
            ErrorCode::HTTP_1_1_REQUIRED => 0xd,
            ErrorCode::UNKNOWN(v) => *v,
        }
    }
}

/// Every word decodes to a well-formed code that encodes back to it, so
/// unassigned codes pass through unchanged.
pub proof fn lemma_error_code_of(v: u32)
    ensures
        error_code_of(v).wf(),
        error_code_of(v).spec_code() == v,
{
}

/// A well-formed code survives encoding and decoding.
pub proof fn lemma_error_code_round_trip(e: ErrorCode)
    requires
        e.wf(),
    ensures
        error_code_of(e.spec_code()) == e,
{
}

impl From<u32> for ErrorCode {
    fn from(value: u32) -> (r: ErrorCode) {
        match value {
            0x0 => ErrorCode::NO_ERROR,
            0x1 => ErrorCode::PROTOCOL_ERROR,
            0x2 => ErrorCode::INTERNAL_ERROR,
            0x3 => ErrorCode::FLOW_CONTROL_ERROR,
            0x4 => ErrorCode::SETTINGS_TIMEOUT,
            0x5 => ErrorCode::STREAM_CLOSED,
            0x6 => ErrorCode::FRAME_SIZE_ERROR,
            0x7 => ErrorCode::REFUSED_STREAM,
            0x8 => ErrorCode::CANCEL,
            0x9 => ErrorCode::COMPRESSION_ERROR,
            0xa => ErrorCode::CONNECT_ERROR,
            0xb => ErrorCode::ENHANCE_YOUR_CALM,
            0xc => ErrorCode::INADEQUATE_SECURITY,
            0xd => ErrorCode::HTTP_1_1_REQUIRED,
            v => ErrorCode::UNKNOWN(v),
        }
    }
}

impl vstd::std_specs::convert::FromSpecImpl<u32> for ErrorCode {
    open spec fn obeys_from_spec() -> bool {
        true
    }

    open spec fn from_spec(v: u32) -> ErrorCode {
        error_code_of(v)
    }
}

/// The 8-bit frame type of a frame header.
#[derive(Debug, Default, Clone, Copy, PartialEq, Eq, Structural)]
pub enum FrameType {
    /// RFC 7540.
    #[default]
    DATA,
    /// RFC 7540.
    HEADERS,
    /// RFC 7540.
    PRIORITY,
    /// RFC 7540.
    RST_STREAM,
    /// RFC 7540.
    SETTINGS,
    /// RFC 7540.
    PUSH_PROMISE,
    /// RFC 7540.
    PING,
    /// RFC 7540.
    GOAWAY,
    /// RFC 7540.
    WINDOW_UPDATE,
    /// RFC 7540.
    CONTINUATION,
    /// RFC 7838, alternative services.
    ALTSVC,
    /// RFC 8336, the ORIGIN frame.
    ORIGIN,
    /// Any type without a name here.
    UNKNOWN(u8),
}

/// The frame type that the byte `v` stands for.
pub open spec fn frame_type_of(v: u8) -> FrameType {
    match v {
        0x0 => FrameType::DATA,
        0x1 => FrameType::HEADERS,
        0x2 => FrameType::PRIORITY,
        0x3 => FrameType::RST_STREAM,
        0x4 => FrameType::SETTINGS,
        0x5 => FrameType::PUSH_PROMISE,
        0x6 => FrameType::PING,
        0x7 => FrameType::GOAWAY,
        0x8 => FrameType::WINDOW_UPDATE,
        0x9 => FrameType::CONTINUATION,
        0xa => FrameType::ALTSVC,
        0xc => FrameType::ORIGIN,
        _ => FrameType::UNKNOWN(v),
    }
}

impl FrameType {
    /// The byte that stands for this type on the wire.
    pub open spec fn spec_code(self) -> u8 {
        match self {
            FrameType::DATA => 0x0,
            FrameType::HEADERS => 0x1,
            FrameType::PRIORITY => 0x2,
            FrameType::RST_STREAM => 0x3,
            FrameType::SETTINGS => 0x4,
            FrameType::PUSH_PROMISE => 0x5,
            FrameType::PING => 0x6,
            FrameType::GOAWAY => 0x7,
            FrameType::WINDOW_UPDATE => 0x8,
            FrameType::CONTINUATION => 0x9,
            FrameType::ALTSVC => 0xa,
            FrameType::ORIGIN => 0xc,
            FrameType::UNKNOWN(v) => v,
        }
    }

    /// A catch-all value is never one that has a name.
    pub open spec fn wf(self) -> bool {
        self matches FrameType::UNKNOWN(v) ==> (v > 0xa && v != 0xc)
    }

    pub fn code(&self) -> (r: u8)
        ensures
            r == self.spec_code(),
    {
        match self {
            FrameType::DATA => 0x0,
            FrameType::HEADERS => 0x1,
            FrameType::PRIORITY => 0x2,
            FrameType::RST_STREAM => 0x3,
            FrameType::SETTINGS => 0x4,
            FrameType::PUSH_PROMISE => 0x5,
            FrameType::PING => 0x6,
            FrameType::GOAWAY => 0x7,
            FrameType::WINDOW_UPDATE => 0x8,
            FrameType::CONTINUATION => 0x9,
            FrameType::ALTSVC => 0xa,
            FrameType::ORIGIN => 0xc,
            FrameType::UNKNOWN(v) => *v,
        }
    }
}

/// Every byte decodes to a well-formed type that encodes back to it, so
/// unassigned types pass through unchanged.
pub proof fn lemma_frame_type_of(v: u8)
    ensures
        frame_type_of(v).wf(),
        frame_type_of(v).spec_code() == v,
{
}

/// A well-formed type survives encoding and decoding.
pub proof fn lemma_frame_type_round_trip(t: FrameType)
    requires
        t.wf(),
    ensures
        frame_type_of(t.spec_code()) == t,
{
}

impl From<u8> for FrameType {
    fn from(value: u8) -> (r: FrameType) {
        match value {
            0x0 => FrameType::DATA,
            0x1 => FrameType::HEADERS,
            0x2 => FrameType::PRIORITY,
            0x3 => FrameType::RST_STREAM,
            0x4 => FrameType::SETTINGS,
            0x5 => FrameType::PUSH_PROMISE,
            0x6 => FrameType::PING,
            0x7 => FrameType::GOAWAY,
            0x8 => FrameType::WINDOW_UPDATE,
            0x9 => FrameType::CONTINUATION,
            0xa => FrameType::ALTSVC,
            0xc => FrameType::ORIGIN,
            v => FrameType::UNKNOWN(v),
        }
    }
}

impl vstd::std_specs::convert::FromSpecImpl<u8> for FrameType {
    open spec fn obeys_from_spec() -> bool {
        true
    }

    open spec fn from_spec(v: u8) -> FrameType {
        frame_type_of(v)
    }
}

/// The 16-bit parameter identifiers of a SETTINGS frame.
#[derive(Debug, Clone, Copy, PartialEq, Eq, Structural)]
pub enum SettingsParameter {
    SETTINGS_HEADER_TABLE_SIZE,
    SETTINGS_ENABLE_PUSH,
    SETTINGS_MAX_CONCURRENT_STREAMS,
    SETTINGS_INITIAL_WINDOW_SIZE,
    SETTINGS_MAX_FRAME_SIZE,
    SETTINGS_MAX_HEADER_LIST_SIZE,
    /// Any identifier without a name here.
    RESERVED(u16),
}

/// The parameter that the identifier `v` stands for.
pub open spec fn settings_parameter_of(v: u16) -> SettingsParameter {
    match v {
        0x1 => SettingsParameter::SETTINGS_HEADER_TABLE_SIZE,
        0x2 => SettingsParameter::SETTINGS_ENABLE_PUSH,
        0x3 => SettingsParameter::SETTINGS_MAX_CONCURRENT_STREAMS,
        0x4 => SettingsParameter::SETTINGS_INITIAL_WINDOW_SIZE,
        0x5 => SettingsParameter::SETTINGS_MAX_FRAME_SIZE,
        0x6 => SettingsParameter::SETTINGS_MAX_HEADER_LIST_SIZE,
        _ => SettingsParameter::RESERVED(v),
    }
}

impl SettingsParameter {
    /// The identifier that stands for this parameter on the wire.
    pub open spec fn spec_code(self) -> u16 {
        match self {
            SettingsParameter::SETTINGS_HEADER_TABLE_SIZE => 0x1,
            SettingsParameter::SETTINGS_ENABLE_PUSH => 0x2,
            SettingsParameter::SETTINGS_MAX_CONCURRENT_STREAMS => 0x3,
            SettingsParameter::SETTINGS_INITIAL_WINDOW_SIZE => 0x4,
            SettingsParameter::SETTINGS_MAX_FRAME_SIZE => 0x5,
            SettingsParameter::SETTINGS_MAX_HEADER_LIST_SIZE => 0x6,
            SettingsParameter::RESERVED(v) => v,
        }
    }

    /// A catch-all value is never one that has a name.
    pub open spec fn wf(self) -> bool {
        self matches SettingsParameter::RESERVED(v) ==> (v == 0 || v > 0x6)
    }

    pub fn code(&self) -> (r: u16)
        ensures
            r == self.spec_code(),
    {
        match self {
            SettingsParameter::SETTINGS_HEADER_TABLE_SIZE => 0x1,
            SettingsParameter::SETTINGS_ENABLE_PUSH => 0x2,
            SettingsParameter::SETTINGS_MAX_CONCURRENT_STREAMS => 0x3,
            SettingsParameter::SETTINGS_INITIAL_WINDOW_SIZE => 0x4,
            SettingsParameter::SETTINGS_MAX_FRAME_SIZE => 0x5,
            SettingsParameter::SETTINGS_MAX_HEADER_LIST_SIZE => 0x6,
            SettingsParameter::RESERVED(v) => *v,
        }
    }
}

/// Every identifier decodes to a well-formed parameter that encodes back to
/// it, so unassigned identifiers pass through unchanged.
pub proof fn lemma_settings_parameter_of(v: u16)
    ensures
        settings_parameter_of(v).wf(),
        settings_parameter_of(v).spec_code() == v,
{
}

/// A well-formed parameter survives encoding and decoding.
pub proof fn lemma_settings_parameter_round_trip(p: SettingsParameter)
    requires
        p.wf(),
    ensures
        settings_parameter_of(p.spec_code()) == p,
{
}

impl Default for SettingsParameter {
    fn default() -> (r: SettingsParameter)
        ensures
            r == SettingsParameter::RESERVED(0),
    {
        SettingsParameter::RESERVED(0)
    }
}

impl From<u16> for SettingsParameter {
    fn from(value: u16) -> (r: SettingsParameter) {
        match value {
            0x1 => SettingsParameter::SETTINGS_HEADER_TABLE_SIZE,
            0x2 => SettingsParameter::SETTINGS_ENABLE_PUSH,
            0x3 => SettingsParameter::SETTINGS_MAX_CONCURRENT_STREAMS,
            0x4 => SettingsParameter::SETTINGS_INITIAL_WINDOW_SIZE,
            0x5 => SettingsParameter::SETTINGS_MAX_FRAME_SIZE,
            0x6 => SettingsParameter::SETTINGS_MAX_HEADER_LIST_SIZE,
            v => SettingsParameter::RESERVED(v),
        }
    }
}

impl vstd::std_specs::convert::FromSpecImpl<u16> for SettingsParameter {
    open spec fn obeys_from_spec() -> bool {
        true
    }

    open spec fn from_spec(v: u16) -> SettingsParameter {
        settings_parameter_of(v)
    }
}

} // verus!
