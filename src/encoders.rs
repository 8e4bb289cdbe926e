//! Encoders: each writes a record in the wire layout that its decoder
//! reads. What each writes is stated by a spec function of the record's
//! view.
use vstd::prelude::*;
use vstd::utf8::encode_utf8;

use crate::frames::{
    opt_bytes, ContinuationFrame, DataFrame, Frame, FrameHeader, GoAwayFrame, HeadersFrame, OriginEntry,
    OriginFrame, PingFrame, PriorityFrame, PushPromiseFrame, RstStreamFrame, SettingsFrame,
    SettingsParameterFrame, SpecContinuationFrame, SpecDataFrame, SpecFrame, SpecGoAwayFrame,
    SpecHeadersFrame, SpecOriginEntry, SpecOriginFrame, SpecPushPromiseFrame, SpecSettingsFrame,
    WindowUpdateFrame,
};
use crate::wire::{
    be16_bytes, be24_bytes, be32_bytes, be64_bytes, write_bytes, write_u16, write_u24, write_u32,
    write_u64,
};

verus! {

/// The pad-length byte, when there is one.
pub open spec fn pad_length_bytes(pad: Option<u8>) -> Seq<u8> {
    match pad {
        Some(n) => seq![n],
        None => Seq::empty(),
    }
}

/// The bytes of an optional byte field; none when it is absent.
pub open spec fn opt_seq(o: Option<Seq<u8>>) -> Seq<u8> {
    match o {
        Some(b) => b,
        None => Seq::empty(),
    }
}

/// The nine bytes of a header: the low 24 bits of the length word, type,
/// flags and the whole stream word.
pub open spec fn header_bytes(h: FrameHeader) -> Seq<u8> {
    be24_bytes(h.length.0) + seq![h.frame_type.spec_code(), h.flags.0] + be32_bytes(
        h.stream_identifier.0,
    )
}

/// The six bytes of one SETTINGS pair.
pub open spec fn settings_entry_bytes(e: SettingsParameterFrame) -> Seq<u8> {
    be16_bytes(e.identifier.spec_code()) + be32_bytes(e.value)
}

/// The pairs of a SETTINGS payload, one after another.
pub open spec fn settings_bytes(ps: Seq<SettingsParameterFrame>) -> Seq<u8>
    decreases ps.len(),
{
    if ps.len() == 0 {
        Seq::empty()
    } else {
        settings_bytes(ps.drop_last()) + settings_entry_bytes(ps.last())
    }
}

impl SpecDataFrame {
    pub open spec fn serialized(self) -> Seq<u8> {
        pad_length_bytes(self.pad_length) + self.data + opt_seq(self.padding)
    }
}

impl SpecHeadersFrame {
    pub open spec fn serialized(self) -> Seq<u8> {
        pad_length_bytes(self.pad_length) + match self.stream_dependency {
            Some(d) => be32_bytes(d.0),
            None => Seq::empty(),
        } + pad_length_bytes(self.weight) + self.header_block_fragment + opt_seq(self.padding)
    }
}

impl PriorityFrame {
    pub open spec fn serialized(self) -> Seq<u8> {
        be32_bytes(self.stream_dependency.0).push(self.weight)
    }
}

impl RstStreamFrame {
    pub open spec fn serialized(self) -> Seq<u8> {
        be32_bytes(self.error_code.spec_code())
    }
}

impl SpecSettingsFrame {
    pub open spec fn serialized(self) -> Seq<u8> {
        match self.parameters {
            Some(ps) => settings_bytes(ps),
            None => Seq::empty(),
        }
    }
}

impl SpecPushPromiseFrame {
    pub open spec fn serialized(self) -> Seq<u8> {
        pad_length_bytes(self.pad_length) + be32_bytes(self.promised_stream_identifier.0)
            + self.header_block_fragment + opt_seq(self.padding)
    }
}

impl PingFrame {
    pub open spec fn serialized(self) -> Seq<u8> {
        be64_bytes(self.opaque_data)
    }
}

impl SpecGoAwayFrame {
    pub open spec fn serialized(self) -> Seq<u8> {
        be32_bytes(self.last_stream_identifier.0) + be32_bytes(self.error_code.spec_code())
            + opt_seq(self.debug_data)
    }
}

impl WindowUpdateFrame {
    pub open spec fn serialized(self) -> Seq<u8> {
        be32_bytes(self.window_size_increment.0)
    }
}

impl SpecContinuationFrame {
    pub open spec fn serialized(self) -> Seq<u8> {
        self.header_block_fragment
    }
}

impl SpecOriginEntry {
    pub open spec fn serialized(self) -> Seq<u8> {
        be16_bytes(self.origin_length) + match self.ascii_origin {
            Some(cs) => encode_utf8(cs),
            None => Seq::empty(),
        }
    }
}

impl SpecOriginFrame {
    pub open spec fn serialized(self) -> Seq<u8> {
        match self.origin_entry {
            Some(e) => e.serialized(),
            None => Seq::empty(),
        }
    }
}

impl SpecFrame {
    /// The payload bytes of the frame's body.
    pub open spec fn body_bytes(self) -> Seq<u8> {
        match self {
            SpecFrame::Data(_, b) => b.serialized(),
            SpecFrame::Headers(_, b) => b.serialized(),
            SpecFrame::Priority(_, b) => b.serialized(),
            SpecFrame::RstStream(_, b) => b.serialized(),
            SpecFrame::Settings(_, b) => b.serialized(),
            SpecFrame::PushPromise(_, b) => b.serialized(),
            SpecFrame::Ping(_, b) => b.serialized(),
            SpecFrame::GoAway(_, b) => b.serialized(),
            SpecFrame::WindowUpdate(_, b) => b.serialized(),
            SpecFrame::Continuation(_, b) => b.serialized(),
            SpecFrame::Origin(_, b) => b.serialized(),
        }
    }

    /// The whole frame: header, then body.
    pub open spec fn serialized(self) -> Seq<u8> {
        header_bytes(self.header()) + self.body_bytes()
    }
}

fn write_pad_length(out: &mut Vec<u8>, pad: Option<u8>)
    ensures
        final(out)@ == old(out)@ + pad_length_bytes(pad),
{
    if let Some(n) = pad {
        out.push(n);
    }
    assert(final(out)@ =~= old(out)@ + pad_length_bytes(pad));
}

fn write_opt_bytes(out: &mut Vec<u8>, o: Option<&[u8]>)
    ensures
        final(out)@ == old(out)@ + opt_seq(opt_bytes(o)),
{
    match o {
        Some(b) => write_bytes(out, b),
        None => {
            assert(out@ =~= old(out)@ + Seq::<u8>::empty());
        },
    }
}

impl FrameHeader {
    /// Appends the nine header bytes.
    pub fn encode(&self, out: &mut Vec<u8>)
        ensures
            final(out)@ == old(out)@ + header_bytes(*self),
    {
        write_u24(out, self.length.0);
        out.push(self.frame_type.code());
        out.push(self.flags.0);
        write_u32(out, self.stream_identifier.0);
        assert(final(out)@ =~= old(out)@ + header_bytes(*self));
    }
}

impl<'a> DataFrame<'a> {
    /// Appends the DATA payload.
    pub fn encode(&self, out: &mut Vec<u8>)
        ensures
            final(out)@ == old(out)@ + self@.serialized(),
    {
        write_pad_length(out, self.pad_length);
        write_bytes(out, self.data);
        write_opt_bytes(out, self.padding);
        assert(final(out)@ =~= old(out)@ + self@.serialized());
    }
}

impl<'a> HeadersFrame<'a> {
    /// Appends the HEADERS payload.
    pub fn encode(&self, out: &mut Vec<u8>)
        ensures
            final(out)@ == old(out)@ + self@.serialized(),
    {
        let ghost start = out@;
        write_pad_length(out, self.pad_length);
        let ghost after_pad = out@;
        match self.stream_dependency {
            Some(d) => write_u32(out, d.0),
            None => {},
        }
        let ghost after_dep = out@;
        assert(after_dep =~= after_pad + match self.stream_dependency {
            Some(d) => be32_bytes(d.0),
            None => Seq::empty(),
        });
        write_pad_length(out, self.weight);
        write_bytes(out, self.header_block_fragment);
        write_opt_bytes(out, self.padding);
        assert(final(out)@ =~= start + self@.serialized());
    }
}

impl PriorityFrame {
    /// Appends the five PRIORITY bytes.
    pub fn encode(&self, out: &mut Vec<u8>)
        ensures
            final(out)@ == old(out)@ + self.serialized(),
    {
        write_u32(out, self.stream_dependency.0);
        out.push(self.weight);
        assert(final(out)@ =~= old(out)@ + self.serialized());
    }
}

impl RstStreamFrame {
    /// Appends the four RST_STREAM bytes.
    pub fn encode(&self, out: &mut Vec<u8>)
        ensures
            final(out)@ == old(out)@ + self.serialized(),
    {
        write_u32(out, self.error_code.code());
    }
}

impl SettingsFrame {
    /// Appends the SETTINGS payload: six bytes per pair, none on an
    /// acknowledgement.
    pub fn encode(&self, out: &mut Vec<u8>)
        ensures
            final(out)@ == old(out)@ + self@.serialized(),
    {
        match &self.parameters {
            None => {
                assert(out@ =~= old(out)@ + Seq::<u8>::empty());
            },
            Some(ps) => {
                let mut i: usize = 0;
                while i < ps.len()
                    invariant
                        i <= ps@.len(),
                        out@ == old(out)@ + settings_bytes(ps@.take(i as int)),
                    decreases ps@.len() - i,
                {
                    let e = ps[i];
                    write_u16(out, e.identifier.code());
                    write_u32(out, e.value);
                    assert(ps@.take(i + 1).drop_last() =~= ps@.take(i as int));
                    assert(out@ =~= old(out)@ + settings_bytes(ps@.take(i + 1)));
                    i = i + 1;
                }
                assert(ps@.take(i as int) =~= ps@);
            },
        }
    }
}

impl<'a> PushPromiseFrame<'a> {
    /// Appends the PUSH_PROMISE payload.
    pub fn encode(&self, out: &mut Vec<u8>)
        ensures
            final(out)@ == old(out)@ + self@.serialized(),
    {
        write_pad_length(out, self.pad_length);
        write_u32(out, self.promised_stream_identifier.0);
        write_bytes(out, self.header_block_fragment);
        write_opt_bytes(out, self.padding);
        assert(final(out)@ =~= old(out)@ + self@.serialized());
    }
}

impl PingFrame {
    /// Appends the eight PING bytes.
    pub fn encode(&self, out: &mut Vec<u8>)
        ensures
            final(out)@ == old(out)@ + self.serialized(),
    {
        write_u64(out, self.opaque_data);
    }
}

impl<'a> GoAwayFrame<'a> {
    /// Appends the GOAWAY payload.
    pub fn encode(&self, out: &mut Vec<u8>)
        ensures
            final(out)@ == old(out)@ + self@.serialized(),
    {
        write_u32(out, self.last_stream_identifier.0);
        write_u32(out, self.error_code.code());
        write_opt_bytes(out, self.debug_data);
        assert(final(out)@ =~= old(out)@ + self@.serialized());
    }
}

impl WindowUpdateFrame {
    /// Appends the four WINDOW_UPDATE bytes.
    pub fn encode(&self, out: &mut Vec<u8>)
        ensures
            final(out)@ == old(out)@ + self.serialized(),
    {
        write_u32(out, self.window_size_increment.0);
    }
}

impl<'a> ContinuationFrame<'a> {
    /// Appends the CONTINUATION payload.
    pub fn encode(&self, out: &mut Vec<u8>)
        ensures
            final(out)@ == old(out)@ + self@.serialized(),
    {
        write_bytes(out, self.header_block_fragment);
    }
}

impl<'a> OriginEntry<'a> {
    /// Appends the two-byte length and the text of the entry.
    pub fn encode(&self, out: &mut Vec<u8>)
        ensures
            final(out)@ == old(out)@ + self@.serialized(),
    {
        write_u16(out, self.origin_length);
        match self.ascii_origin {
            Some(s) => write_bytes(out, s.as_bytes()),
            None => {},
        }
        assert(final(out)@ =~= old(out)@ + self@.serialized());
    }
}

impl<'a> OriginFrame<'a> {
    /// Appends the ORIGIN payload.
    pub fn encode(&self, out: &mut Vec<u8>)
        ensures
            final(out)@ == old(out)@ + self@.serialized(),
    {
        match &self.origin_entry {
            Some(e) => e.encode(out),
            None => {
                assert(out@ =~= old(out)@ + Seq::<u8>::empty());
            },
        }
    }
}

impl<'a> Frame<'a> {
    /// The whole frame as it goes on the wire: its header, as it stands,
    /// then its body.
    pub fn encode(&self) -> (r: Vec<u8>)
        ensures
            r@ == self@.serialized(),
    {
        let mut out: Vec<u8> = Vec::new();
        self.header().encode(&mut out);
        match self {
            Frame::Data(_, b) => b.encode(&mut out),
            Frame::Headers(_, b) => b.encode(&mut out),
            Frame::Priority(_, b) => b.encode(&mut out),
            Frame::RstStream(_, b) => b.encode(&mut out),
            Frame::Settings(_, b) => b.encode(&mut out),
            Frame::PushPromise(_, b) => b.encode(&mut out),
            Frame::Ping(_, b) => b.encode(&mut out),
            Frame::GoAway(_, b) => b.encode(&mut out),
            Frame::WindowUpdate(_, b) => b.encode(&mut out),
            Frame::Continuation(_, b) => b.encode(&mut out),
            Frame::Origin(_, b) => b.encode(&mut out),
        }
        assert(out@ =~= self@.serialized());
        out
    }
}

} // verus!
