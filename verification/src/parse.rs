//! Field cursor.
//!
//! A received request is an array frame. The cursor hands out its fields one
//! after the other, each as the kind of value that the reader asks for.

use crate::byte_string::{bytes_as_slice, str_from_utf8};
use crate::frame::{frame_views, Frame, FrameView};
use vstd::prelude::*;
use vstd::string::StringExecFns;

verus! {

/// Why a field could not be read.
#[derive(Clone, Copy, Debug, PartialEq, Eq)]
pub enum ParseError {
    /// No field is left.
    Exhausted,
    /// The field is there, but it is not of the kind that was asked for.
    WrongKind,
}

/// A reader over the fields of one array frame, front to back.
#[derive(Debug)]
pub struct Parse {
    parts: Vec<Frame>,
    next: usize,
}

impl View for Parse {
    type V = Seq<FrameView>;

    /// The fields that have not been read yet.
    closed spec fn view(&self) -> Seq<FrameView> {
        frame_views(self.parts@).skip(self.next as int)
    }
}

impl Parse {
    #[verifier::type_invariant]
    spec fn in_bounds(self) -> bool {
        self.next <= self.parts@.len()
    }

    /// A cursor over the fields of `frame`, which has to be an array.
    pub fn new(frame: Frame) -> (result: Result<Parse, ParseError>)
        ensures
            match frame@ {
                FrameView::Array(fields) => result matches Ok(parse) && parse@ == fields,
                _ => result == Err::<Parse, ParseError>(ParseError::WrongKind),
            },
    {
        match frame {
            Frame::Array(parts) => {
                let parse = Parse { parts, next: 0 };
                assert(parse@ =~= frame@->Array_0);
                Ok(parse)
            },
            _ => Err(ParseError::WrongKind),
        }
    }

    /// Reads the next field as an integer. A field that is present is
    /// consumed, whatever its kind.
    pub fn next_int(&mut self) -> (result: Result<u64, ParseError>)
        ensures
            old(self)@.len() == 0 ==> final(self)@ == old(self)@ && result == Err::<u64, ParseError>(
                ParseError::Exhausted,
            ),
            old(self)@.len() > 0 ==> final(self)@ == old(self)@.drop_first() && match old(self)@[0] {
                FrameView::Integer(value) => result matches Ok(n) && n == value,
                _ => result == Err::<u64, ParseError>(ParseError::WrongKind),
            },
    {
        proof {
            use_type_invariant(&*self);
        }
        if self.next >= self.parts.len() {
            return Err(ParseError::Exhausted);
        }
        let result = match &self.parts[self.next] {
            Frame::Integer(value) => Ok(*value),
            _ => Err(ParseError::WrongKind),
        };
        self.next = self.next + 1;
        assert(self@ =~= old(self)@.drop_first());
        result
    }

    /// Reads the next field as a string: a bulk frame that holds well-formed
    /// UTF-8. A field that is present is consumed, whatever its kind.
    pub fn next_string(&mut self) -> (result: Result<String, ParseError>)
        ensures
            old(self)@.len() == 0 ==> final(self)@ == old(self)@ && result == Err::<
                String,
                ParseError,
            >(ParseError::Exhausted),
            old(self)@.len() > 0 ==> final(self)@ == old(self)@.drop_first() && if old(
                self,
            )@[0].is_text() {
                result matches Ok(text) && text@ == old(self)@[0].text()
            } else {
                result == Err::<String, ParseError>(ParseError::WrongKind)
            },
    {
        proof {
            use_type_invariant(&*self);
        }
        if self.next >= self.parts.len() {
            return Err(ParseError::Exhausted);
        }
        let result = match &self.parts[self.next] {
            Frame::Bulk(data) => match str_from_utf8(bytes_as_slice(data)) {
                Ok(text) => Ok(String::from_str(text)),
                Err(_) => Err(ParseError::WrongKind),
            },
            _ => Err(ParseError::WrongKind),
        };
        self.next = self.next + 1;
        assert(self@ =~= old(self)@.drop_first());
        result
    }
}

} // verus!
