//! Frame records. Byte fields borrow from the buffer that was decoded; each
//! record has a view in which those fields are plain byte sequences.
use vstd::prelude::*;

use crate::codes::{ErrorCode, FrameType, SettingsParameter};
use crate::flags::Flags;
use crate::wire::{FrameHeaderLength, StreamDependency, StreamIdentifier, WindowSizeIncrement};

verus! {

/// The contents of an optional borrowed byte field.
pub open spec fn opt_bytes(o: Option<&[u8]>) -> Option<Seq<u8>> {
    match o {
        Some(b) => Some(b@),
        None => None,
    }
}

/// The universal frame header: payload length, type, flags and stream.
#[derive(Debug, Default, Clone, Copy, PartialEq, Eq, Structural)]
pub struct FrameHeader {
    pub length: FrameHeaderLength,
    pub frame_type: FrameType,
    pub flags: Flags,
    pub stream_identifier: StreamIdentifier,
}

impl View for FrameHeader {
    type V = FrameHeader;

    open spec fn view(&self) -> FrameHeader {
        *self
    }
}

/// Why a buffer could not be decoded.
#[derive(Debug, Clone, Copy, PartialEq, Eq, Structural)]
pub enum DecodeError {
    /// Fewer bytes are at hand than the frame needs; more may come.
    Incomplete,
    /// The bytes break a structural rule of the frame kind.
    Malformed,
    /// The header is sound but no body decoder handles its type; the
    /// header and the raw type byte are handed back.
    UnsupportedType(FrameHeader, u8),
}

/// A DATA frame: optional padding around application data.
#[derive(Debug, Clone, PartialEq, Eq)]
pub struct DataFrame<'a> {
    pub pad_length: Option<u8>,
    pub data: &'a [u8],
    pub padding: Option<&'a [u8]>,
}

pub struct SpecDataFrame {
    pub pad_length: Option<u8>,
    pub data: Seq<u8>,
    pub padding: Option<Seq<u8>>,
}

impl<'a> View for DataFrame<'a> {
    type V = SpecDataFrame;

    open spec fn view(&self) -> SpecDataFrame {
        SpecDataFrame {
            pad_length: self.pad_length,
            data: self.data@,
            padding: opt_bytes(self.padding),
        }
    }
}

/// A HEADERS frame: optional padding and priority around a header block
/// fragment.
#[derive(Debug, Clone, PartialEq, Eq)]
pub struct HeadersFrame<'a> {
    pub pad_length: Option<u8>,
    pub stream_dependency: Option<StreamDependency>,
    pub weight: Option<u8>,
    pub header_block_fragment: &'a [u8],
    pub padding: Option<&'a [u8]>,
}

pub struct SpecHeadersFrame {
    pub pad_length: Option<u8>,
    pub stream_dependency: Option<StreamDependency>,
    pub weight: Option<u8>,
    pub header_block_fragment: Seq<u8>,
    pub padding: Option<Seq<u8>>,
}

impl<'a> View for HeadersFrame<'a> {
    type V = SpecHeadersFrame;

    open spec fn view(&self) -> SpecHeadersFrame {
        SpecHeadersFrame {
            pad_length: self.pad_length,
            stream_dependency: self.stream_dependency,
            weight: self.weight,
            header_block_fragment: self.header_block_fragment@,
            padding: opt_bytes(self.padding),
        }
    }
}

/// A PRIORITY frame: a stream dependency and a weight.
#[derive(Debug, Clone, Copy, PartialEq, Eq, Structural)]
pub struct PriorityFrame {
    pub stream_dependency: StreamDependency,
    pub weight: u8,
}

impl View for PriorityFrame {
    type V = PriorityFrame;

    open spec fn view(&self) -> PriorityFrame {
        *self
    }
}

/// A RST_STREAM frame: the reason the stream is reset.
#[derive(Debug, Clone, Copy, PartialEq, Eq, Structural)]
pub struct RstStreamFrame {
    pub error_code: ErrorCode,
}

impl View for RstStreamFrame {
    type V = RstStreamFrame;

    open spec fn view(&self) -> RstStreamFrame {
        *self
    }
}

/// One parameter-value pair of a SETTINGS frame.
#[derive(Debug, Clone, Copy, PartialEq, Eq, Structural)]
pub struct SettingsParameterFrame {
    pub identifier: SettingsParameter,
    pub value: u32,
}

/// A SETTINGS frame: the pairs in wire order, absent on an acknowledgement.
#[derive(Debug, Clone, PartialEq, Eq)]
pub struct SettingsFrame {
    pub parameters: Option<Vec<SettingsParameterFrame>>,
}

pub struct SpecSettingsFrame {
    pub parameters: Option<Seq<SettingsParameterFrame>>,
}

impl View for SettingsFrame {
    type V = SpecSettingsFrame;

    open spec fn view(&self) -> SpecSettingsFrame {
        SpecSettingsFrame {
            parameters: match self.parameters {
                Some(v) => Some(v@),
                None => None,
            },
        }
    }
}

/// A PING frame: eight opaque bytes, read as one big-endian word.
#[derive(Debug, Clone, Copy, PartialEq, Eq, Structural)]
pub struct PingFrame {
    pub opaque_data: u64,
}

impl View for PingFrame {
    type V = PingFrame;

    open spec fn view(&self) -> PingFrame {
        *self
    }
}

/// A GOAWAY frame: the last stream processed, an error code and optional
/// debug data.
#[derive(Debug, Clone, PartialEq, Eq)]
pub struct GoAwayFrame<'a> {
    pub last_stream_identifier: StreamIdentifier,
    pub error_code: ErrorCode,
    pub debug_data: Option<&'a [u8]>,
}

pub struct SpecGoAwayFrame {
    pub last_stream_identifier: StreamIdentifier,
    pub error_code: ErrorCode,
    pub debug_data: Option<Seq<u8>>,
}

impl<'a> View for GoAwayFrame<'a> {
    type V = SpecGoAwayFrame;

    open spec fn view(&self) -> SpecGoAwayFrame {
        SpecGoAwayFrame {
            last_stream_identifier: self.last_stream_identifier,
            error_code: self.error_code,
            debug_data: opt_bytes(self.debug_data),
        }
    }
}

/// A PUSH_PROMISE frame: the promised stream and a header block fragment,
/// with optional padding.
#[derive(Debug, Clone, PartialEq, Eq)]
pub struct PushPromiseFrame<'a> {
    pub pad_length: Option<u8>,
    pub promised_stream_identifier: StreamIdentifier,
    pub header_block_fragment: &'a [u8],
    pub padding: Option<&'a [u8]>,
}

pub struct SpecPushPromiseFrame {
    pub pad_length: Option<u8>,
    pub promised_stream_identifier: StreamIdentifier,
    pub header_block_fragment: Seq<u8>,
    pub padding: Option<Seq<u8>>,
}

impl<'a> View for PushPromiseFrame<'a> {
    type V = SpecPushPromiseFrame;

    open spec fn view(&self) -> SpecPushPromiseFrame {
        SpecPushPromiseFrame {
            pad_length: self.pad_length,
            promised_stream_identifier: self.promised_stream_identifier,
            header_block_fragment: self.header_block_fragment@,
            padding: opt_bytes(self.padding),
        }
    }
}

/// A WINDOW_UPDATE frame: a flow-control window increment.
#[derive(Debug, Clone, Copy, PartialEq, Eq, Structural)]
pub struct WindowUpdateFrame {
    pub window_size_increment: WindowSizeIncrement,
}

impl View for WindowUpdateFrame {
    type V = WindowUpdateFrame;

    open spec fn view(&self) -> WindowUpdateFrame {
        *self
    }
}

/// A CONTINUATION frame: the next fragment of a header block.
#[derive(Debug, Clone, PartialEq, Eq)]
pub struct ContinuationFrame<'a> {
    pub header_block_fragment: &'a [u8],
}

pub struct SpecContinuationFrame {
    pub header_block_fragment: Seq<u8>,
}

impl<'a> View for ContinuationFrame<'a> {
    type V = SpecContinuationFrame;

    open spec fn view(&self) -> SpecContinuationFrame {
        SpecContinuationFrame { header_block_fragment: self.header_block_fragment@ }
    }
}

/// One origin of an ORIGIN frame: its length in bytes and, when that is
/// not zero, its text.
#[derive(Debug, Clone, PartialEq, Eq)]
pub struct OriginEntry<'a> {
    pub origin_length: u16,
    pub ascii_origin: Option<&'a str>,
}

pub struct SpecOriginEntry {
    pub origin_length: u16,
    pub ascii_origin: Option<Seq<char>>,
}

impl<'a> View for OriginEntry<'a> {
    type V = SpecOriginEntry;

    open spec fn view(&self) -> SpecOriginEntry {
        SpecOriginEntry {
            origin_length: self.origin_length,
            ascii_origin: match self.ascii_origin {
                Some(s) => Some(s@),
                None => None,
            },
        }
    }
}

/// An ORIGIN frame: at most one origin entry.
#[derive(Debug, Clone, PartialEq, Eq)]
pub struct OriginFrame<'a> {
    pub origin_entry: Option<OriginEntry<'a>>,
}

pub struct SpecOriginFrame {
    pub origin_entry: Option<SpecOriginEntry>,
}

impl<'a> View for OriginFrame<'a> {
    type V = SpecOriginFrame;

    open spec fn view(&self) -> SpecOriginFrame {
        SpecOriginFrame {
            origin_entry: match self.origin_entry {
                Some(e) => Some(e@),
                None => None,
            },
        }
    }
}

/// A decoded frame: its header and the body of its kind.
#[derive(Debug, Clone, PartialEq, Eq)]
pub enum Frame<'a> {
    Data(FrameHeader, DataFrame<'a>),
    Headers(FrameHeader, HeadersFrame<'a>),
    Priority(FrameHeader, PriorityFrame),
    RstStream(FrameHeader, RstStreamFrame),
    Settings(FrameHeader, SettingsFrame),
    PushPromise(FrameHeader, PushPromiseFrame<'a>),
    Ping(FrameHeader, PingFrame),
    GoAway(FrameHeader, GoAwayFrame<'a>),
    WindowUpdate(FrameHeader, WindowUpdateFrame),
    Continuation(FrameHeader, ContinuationFrame<'a>),
    Origin(FrameHeader, OriginFrame<'a>),
}

pub enum SpecFrame {
    Data(FrameHeader, SpecDataFrame),
    Headers(FrameHeader, SpecHeadersFrame),
    Priority(FrameHeader, PriorityFrame),
    RstStream(FrameHeader, RstStreamFrame),
    Settings(FrameHeader, SpecSettingsFrame),
    PushPromise(FrameHeader, SpecPushPromiseFrame),
    Ping(FrameHeader, PingFrame),
    GoAway(FrameHeader, SpecGoAwayFrame),
    WindowUpdate(FrameHeader, WindowUpdateFrame),
    Continuation(FrameHeader, SpecContinuationFrame),
    Origin(FrameHeader, SpecOriginFrame),
}

impl<'a> View for Frame<'a> {
    type V = SpecFrame;

    open spec fn view(&self) -> SpecFrame {
        match self {
            Frame::Data(h, b) => SpecFrame::Data(*h, b@),
            Frame::Headers(h, b) => SpecFrame::Headers(*h, b@),
            Frame::Priority(h, b) => SpecFrame::Priority(*h, *b),
            Frame::RstStream(h, b) => SpecFrame::RstStream(*h, *b),
            Frame::Settings(h, b) => SpecFrame::Settings(*h, b@),
            Frame::PushPromise(h, b) => SpecFrame::PushPromise(*h, b@),
            Frame::Ping(h, b) => SpecFrame::Ping(*h, *b),
            Frame::GoAway(h, b) => SpecFrame::GoAway(*h, b@),
            Frame::WindowUpdate(h, b) => SpecFrame::WindowUpdate(*h, *b),
            Frame::Continuation(h, b) => SpecFrame::Continuation(*h, b@),
            Frame::Origin(h, b) => SpecFrame::Origin(*h, b@),
        }
    }
}

impl SpecFrame {
    /// The header that the frame carries.
    pub open spec fn header(self) -> FrameHeader {
        match self {
            SpecFrame::Data(h, _) => h,
            SpecFrame::Headers(h, _) => h,
            SpecFrame::Priority(h, _) => h,
            SpecFrame::RstStream(h, _) => h,
            SpecFrame::Settings(h, _) => h,
            SpecFrame::PushPromise(h, _) => h,
            SpecFrame::Ping(h, _) => h,
            SpecFrame::GoAway(h, _) => h,
            SpecFrame::WindowUpdate(h, _) => h,
            SpecFrame::Continuation(h, _) => h,
            SpecFrame::Origin(h, _) => h,
        }
    }
}

impl<'a> Frame<'a> {
    /// The header that the frame carries.
    pub fn header(&self) -> (r: FrameHeader)
        ensures
            r == self@.header(),
    {
        match self {
            Frame::Data(h, _) => *h,
            Frame::Headers(h, _) => *h,
            Frame::Priority(h, _) => *h,
            Frame::RstStream(h, _) => *h,
            Frame::Settings(h, _) => *h,
            Frame::PushPromise(h, _) => *h,
            Frame::Ping(h, _) => *h,
            Frame::GoAway(h, _) => *h,
            Frame::WindowUpdate(h, _) => *h,
            Frame::Continuation(h, _) => *h,
            Frame::Origin(h, _) => *h,
        }
    }
}

} // verus!

verus! {

/// Padding fields agree with the PADDED flag and with each other.
pub open spec fn padding_fits(pad: Option<u8>, padding: Option<Seq<u8>>, flags: Flags) -> bool {
    &&& pad is Some <==> flags.has(Flags::PADDED)
    &&& padding is Some <==> pad is Some
    &&& padding matches Some(p) ==> p.len() == pad->0
}

impl SpecDataFrame {
    /// The record is what a payload decoded under `flags` can give.
    pub open spec fn wf(self, flags: Flags) -> bool {
        padding_fits(self.pad_length, self.padding, flags)
    }
}

impl SpecHeadersFrame {
    pub open spec fn wf(self, flags: Flags) -> bool {
        &&& padding_fits(self.pad_length, self.padding, flags)
        &&& self.stream_dependency is Some <==> flags.has(Flags::PRIORITY)
        &&& self.weight is Some <==> flags.has(Flags::PRIORITY)
    }
}

impl SpecSettingsFrame {
    pub open spec fn wf(self, flags: Flags) -> bool {
        &&& self.parameters is None <==> flags.has(Flags::ACK)
        &&& self.parameters matches Some(ps) ==> forall|i: int|
            0 <= i < ps.len() ==> (#[trigger] ps[i]).identifier.wf()
    }
}

impl SpecPushPromiseFrame {
    pub open spec fn wf(self, flags: Flags) -> bool {
        &&& padding_fits(self.pad_length, self.padding, flags)
        &&& self.promised_stream_identifier.0 < 0x8000_0000
    }
}

impl SpecGoAwayFrame {
    pub open spec fn wf(self) -> bool {
        &&& self.last_stream_identifier.0 < 0x8000_0000
        &&& self.error_code.wf()
        &&& self.debug_data matches Some(d) ==> d.len() > 0
    }
}

impl WindowUpdateFrame {
    /// The reserved bit is clear, as decoding leaves it.
    pub open spec fn wf(self) -> bool {
        self.window_size_increment.0 < 0x8000_0000
    }
}

impl SpecOriginEntry {
    pub open spec fn wf(self) -> bool {
        match self.ascii_origin {
            Some(cs) => self.origin_length > 0 && vstd::utf8::encode_utf8(cs).len()
                == self.origin_length,
            None => self.origin_length == 0,
        }
    }
}

impl SpecFrame {
    /// The frame is what decoding some bytes can give: the header names the
    /// variant's type, announces the body's exact length, has its reserved
    /// stream bit clear, and its flags fit the body.
    pub open spec fn wf(self) -> bool {
        &&& self.header().length.0 < 0x100_0000
        &&& self.header().stream_identifier.0 < 0x8000_0000
        &&& self.header().length.0 == self.body_bytes().len()
        &&& match self {
            SpecFrame::Data(h, b) => h.frame_type == FrameType::DATA && b.wf(h.flags),
            SpecFrame::Headers(h, b) => h.frame_type == FrameType::HEADERS && b.wf(h.flags),
            SpecFrame::Priority(h, _) => h.frame_type == FrameType::PRIORITY,
            SpecFrame::RstStream(h, b) => h.frame_type == FrameType::RST_STREAM
                && b.error_code.wf(),
            SpecFrame::Settings(h, b) => h.frame_type == FrameType::SETTINGS && b.wf(h.flags),
            SpecFrame::PushPromise(h, b) => h.frame_type == FrameType::PUSH_PROMISE && b.wf(
                h.flags,
            ),
            SpecFrame::Ping(h, _) => h.frame_type == FrameType::PING,
            SpecFrame::GoAway(h, b) => h.frame_type == FrameType::GOAWAY && b.wf(),
            SpecFrame::WindowUpdate(h, b) => h.frame_type == FrameType::WINDOW_UPDATE && b.wf(),
            SpecFrame::Continuation(h, _) => h.frame_type == FrameType::CONTINUATION,
            SpecFrame::Origin(h, b) => h.frame_type == FrameType::ORIGIN && (
            b.origin_entry matches Some(e) ==> e.wf()),
        }
    }
}

} // verus!
