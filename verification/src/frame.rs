//! Wire values.
//!
//! A frame is one value of the protocol: an integer, a bulk byte string, the
//! null value, or an array of frames. Requests and responses are array
//! frames.

use crate::byte_string::byte_string;
use bytes::Bytes;
use vstd::prelude::*;
use vstd::utf8::{decode_utf8, valid_utf8};

verus! {

/// One value of the protocol as it is exchanged on the network.
#[derive(Debug, PartialEq, Eq)]
pub enum Frame {
    Integer(u64),
    Bulk(Bytes),
    Null,
    Array(Vec<Frame>),
}

/// What a frame denotes: the same four kinds over mathematical values.
pub enum FrameView {
    Integer(nat),
    Bulk(Seq<u8>),
    Null,
    Array(Seq<FrameView>),
}

impl FrameView {
    /// A bulk frame whose bytes are well-formed UTF-8 can be read as text.
    pub open spec fn is_text(self) -> bool {
        self matches FrameView::Bulk(data) && valid_utf8(data)
    }

    /// The text that a bulk frame encodes.
    pub open spec fn text(self) -> Seq<char>
        recommends
            self.is_text(),
    {
        decode_utf8(self->Bulk_0)
    }
}

/// The frames of a sequence, each by what it denotes.
pub open spec fn frame_views(frames: Seq<Frame>) -> Seq<FrameView>
    decreases frames,
{
    Seq::new(
        frames.len(),
        |i: int|
            if 0 <= i < frames.len() {
                frames[i].view()
            } else {
                FrameView::Null
            },
    )
}

impl View for Frame {
    type V = FrameView;

    open spec fn view(&self) -> FrameView
        decreases self,
    {
        match self {
            Frame::Integer(value) => FrameView::Integer(*value as nat),
            Frame::Bulk(data) => FrameView::Bulk(byte_string(*data)),
            Frame::Null => FrameView::Null,
            Frame::Array(items) => FrameView::Array(frame_views(items@)),
        }
    }
}

impl Frame {
    /// An empty array frame.
    pub fn array() -> (frame: Frame)
        ensures
            frame@ == FrameView::Array(Seq::empty()),
    {
        let frame = Frame::Array(Vec::new());
        assert(frame@->Array_0 =~= Seq::empty());
        frame
    }

    /// Appends a bulk frame holding `bytes` to this array frame.
    pub fn push_bulk(&mut self, bytes: Bytes)
        requires
            old(self)@ is Array,
        ensures
            final(self)@ == FrameView::Array(
                old(self)@->Array_0.push(FrameView::Bulk(byte_string(bytes))),
            ),
    {
        self.push(Frame::Bulk(bytes));
    }

    /// Appends an integer frame holding `value` to this array frame.
    pub fn push_int(&mut self, value: u64)
        requires
            old(self)@ is Array,
        ensures
            final(self)@ == FrameView::Array(
                old(self)@->Array_0.push(FrameView::Integer(value as nat)),
            ),
    {
        self.push(Frame::Integer(value));
    }

    /// Appends a null frame to this array frame.
    pub fn push_null(&mut self)
        requires
            old(self)@ is Array,
        ensures
            final(self)@ == FrameView::Array(old(self)@->Array_0.push(FrameView::Null)),
    {
        self.push(Frame::Null);
    }

    fn push(&mut self, field: Frame)
        requires
            old(self)@ is Array,
        ensures
            final(self)@ == FrameView::Array(old(self)@->Array_0.push(field@)),
    {
        match self {
            Frame::Array(fields) => {
                fields.push(field);
                assert(frame_views(fields@) =~= frame_views(old(self)->Array_0@).push(field@));
            },
            _ => {},
        }
    }
}

} // verus!
