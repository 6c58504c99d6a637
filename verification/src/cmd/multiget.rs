//! The multi-key read.
//!
//! A request names any number of keys; the response holds, for each of them
//! and in the same order, the value that the store has under it, or null.

use crate::byte_string::{byte_string, bytes_from_static, bytes_from_vec, string_into_bytes};
use crate::db::Db;
use crate::frame::{Frame, FrameView};
use crate::parse::{Parse, ParseError};
use bytes::Bytes;
use vstd::prelude::*;
use vstd::utf8::{encode_utf8, encode_utf8_decode_utf8, encode_utf8_valid_utf8};

verus! {

/// The request for `keys` as it goes over the wire: the command's name, the
/// number of keys, then the keys in order.
pub open spec fn request_frame(keys: Seq<Seq<char>>) -> FrameView {
    FrameView::Array(
        seq![FrameView::Bulk(encode_utf8("multiget"@)), FrameView::Integer(keys.len())] + Seq::new(
            keys.len(),
            |i: int| FrameView::Bulk(encode_utf8(keys[i])),
        ),
    )
}

/// How many fields at the front of `fields` can be read as text.
pub open spec fn leading_texts(fields: Seq<FrameView>) -> nat
    decreases fields.len(),
{
    if fields.len() > 0 && fields[0].is_text() {
        1 + leading_texts(fields.drop_first())
    } else {
        0
    }
}

/// What decoding makes of the fields that follow the command's name: the
/// first has to be the number of keys, an integer, and that many texts have
/// to follow it. The fields are read front to back, and the first one that is
/// missing or of the wrong kind decides the error.
pub open spec fn decode(fields: Seq<FrameView>) -> Result<Seq<Seq<char>>, ParseError> {
    if fields.len() == 0 {
        Err(ParseError::Exhausted)
    } else if let FrameView::Integer(count) = fields[0] {
        let rest = fields.drop_first();
        let texts = leading_texts(rest);
        if count <= texts {
            Ok(Seq::new(count, |i: int| rest[i].text()))
        } else if texts < rest.len() {
            Err(ParseError::WrongKind)
        } else {
            Err(ParseError::Exhausted)
        }
    } else {
        Err(ParseError::WrongKind)
    }
}

/// How many of `fields` decoding consumes: on success the count and the
/// keys; on failure everything up to and including the field of the wrong
/// kind, or all there is where the fields ran out.
pub open spec fn fields_read(fields: Seq<FrameView>) -> nat {
    if fields.len() == 0 {
        0
    } else if let FrameView::Integer(count) = fields[0] {
        let rest = fields.drop_first();
        let texts = leading_texts(rest);
        if count <= texts {
            1 + count
        } else if texts < rest.len() {
            1 + texts + 1
        } else {
            1 + texts
        }
    } else {
        1
    }
}

/// The response entry that the outcome of one lookup turns into: the bytes
/// that were found as a bulk frame, null where nothing was found.
pub open spec fn response_entry(value: Option<Bytes>) -> FrameView {
    match value {
        Some(data) => FrameView::Bulk(byte_string(data)),
        None => FrameView::Null,
    }
}

/// `field` is the response entry for an outcome of `lookup` on `key`.
pub open spec fn looked_up<F: Fn(&str) -> Option<Bytes>>(
    lookup: F,
    key: Seq<char>,
    field: FrameView,
) -> bool {
    exists|name: &str, value: Option<Bytes>|
        name@ == key && #[trigger] lookup.ensures((name,), value) && field == response_entry(value)
}

/// The response entry for `key` when the store holds `store`.
pub open spec fn stored_entry(store: Map<Seq<char>, Seq<u8>>, key: Seq<char>) -> FrameView {
    if store.contains_key(key) {
        FrameView::Bulk(store[key])
    } else {
        FrameView::Null
    }
}

/// The response to a request for `keys` when the store holds `store`: one
/// entry per key, in the order of the request.
pub open spec fn response_frame(keys: Seq<Seq<char>>, store: Map<Seq<char>, Seq<u8>>) -> FrameView {
    FrameView::Array(Seq::new(keys.len(), |i: int| stored_entry(store, keys[i])))
}

/// `leading_texts` is the position of the first field that is no text, or
/// the number of fields where all of them are texts.
pub proof fn lemma_leading_texts(fields: Seq<FrameView>)
    ensures
        leading_texts(fields) <= fields.len(),
        forall|j: int| 0 <= j < leading_texts(fields) ==> fields[j].is_text(),
        leading_texts(fields) < fields.len() ==> !fields[leading_texts(fields) as int].is_text(),
    decreases fields.len(),
{
    if fields.len() > 0 && fields[0].is_text() {
        let rest = fields.drop_first();
        lemma_leading_texts(rest);
        assert forall|j: int| 0 <= j < leading_texts(fields) implies fields[j].is_text() by {
            if j > 0 {
                assert(fields[j] == rest[j - 1]);
            }
        }
        if leading_texts(fields) < fields.len() {
            assert(fields[leading_texts(fields) as int] == rest[leading_texts(rest) as int]);
        }
    }
}

/// Decoding succeeds exactly on a count that is followed by at least as many
/// texts, and the keys are then those texts, in order. Fields behind them
/// play no part.
pub proof fn lemma_decode_succeeds(fields: Seq<FrameView>)
    ensures
        decode(fields) is Ok <==> fields.len() > 0 && fields[0] is Integer && fields[0]->Integer_0
            < fields.len() && forall|j: int|
            1 <= j <= fields[0]->Integer_0 ==> (#[trigger] fields[j]).is_text(),
        decode(fields) matches Ok(keys) ==> keys.len() == fields[0]->Integer_0 && forall|i: int|
            0 <= i < keys.len() ==> #[trigger] keys[i] == fields[i + 1].text(),
{
    if fields.len() > 0 && fields[0] is Integer {
        let count = fields[0]->Integer_0;
        let rest = fields.drop_first();
        lemma_leading_texts(rest);
        if count <= leading_texts(rest) {
            assert forall|j: int| 1 <= j <= count implies (#[trigger] fields[j]).is_text() by {
                assert(fields[j] == rest[j - 1]);
            }
        } else if count < fields.len() {
            let misfit = leading_texts(rest) as int;
            assert(fields[misfit + 1] == rest[misfit]);
        }
    }
}

/// Round trip: the frame that encodes a command for `keys` starts with the
/// command's name, and decoding the fields after the name gives `keys` back,
/// in the same order, and leaves no field over. This holds for every list of
/// keys, the empty one and those with repeated keys included.
pub proof fn lemma_round_trip(keys: Seq<Seq<char>>)
    ensures
        request_frame(keys) is Array,
        request_frame(keys)->Array_0.len() == 2 + keys.len(),
        request_frame(keys)->Array_0[0].is_text(),
        request_frame(keys)->Array_0[0].text() == "multiget"@,
        decode(request_frame(keys)->Array_0.drop_first()) == Ok::<Seq<Seq<char>>, ParseError>(keys),
        fields_read(request_frame(keys)->Array_0.drop_first()) == 1 + keys.len(),
{
    let fields = request_frame(keys)->Array_0.drop_first();
    let rest = fields.drop_first();
    encode_utf8_valid_utf8("multiget"@);
    encode_utf8_decode_utf8("multiget"@);
    assert(fields[0] == FrameView::Integer(keys.len()));
    assert(rest.len() == keys.len());
    assert forall|j: int| 0 <= j < keys.len() implies rest[j].is_text() && rest[j].text()
        == keys[j] by {
        assert(rest[j] == FrameView::Bulk(encode_utf8(keys[j])));
        encode_utf8_valid_utf8(keys[j]);
        encode_utf8_decode_utf8(keys[j]);
    }
    lemma_leading_texts(rest);
    assert(Seq::new(keys.len(), |i: int| rest[i].text()) =~= keys);
}

/// Reads the values of several keys in one request.
///
/// Each key is looked up on its own; the response holds one entry per key,
/// in the order of the request. A key may occur more than once.
#[derive(Debug)]
pub struct MultiGet {
    /// Names of the keys to get
    keys: Vec<String>,
}

impl View for MultiGet {
    type V = Seq<Seq<char>>;

    /// The names of the requested keys, in order.
    closed spec fn view(&self) -> Seq<Seq<char>> {
        self.keys.deep_view()
    }
}

impl MultiGet {
    /// A command that reads `keys`, in that order.
    pub fn new(keys: Vec<String>) -> (cmd: MultiGet)
        ensures
            cmd@ == keys.deep_view(),
    {
        MultiGet { keys }
    }

    /// The keys that the command reads.
    pub fn keys(&self) -> (keys: &Vec<String>)
        ensures
            keys.deep_view() == self@,
    {
        &self.keys
    }

    /// Decodes the command from the fields of a received frame. The command's
    /// name has been read already; the cursor stands at the number of keys.
    ///
    /// The cursor is left behind the last field that was read.
    pub fn parse_frames(parse: &mut Parse) -> (result: Result<MultiGet, ParseError>)
        ensures
            match result {
                Ok(cmd) => decode(old(parse)@) == Ok::<Seq<Seq<char>>, ParseError>(cmd@),
                Err(error) => decode(old(parse)@) == Err::<Seq<Seq<char>>, ParseError>(error),
            },
            final(parse)@ == old(parse)@.skip(fields_read(old(parse)@) as int),
    {
        let ghost fields = parse@;
        let num_keys = parse.next_int()?;
        let ghost rest = fields.drop_first();
        proof {
            lemma_leading_texts(rest);
        }
        let mut keys: Vec<String> = Vec::new();
        let mut i: u64 = 0;
        while i < num_keys
            invariant
                fields == old(parse)@,
                fields.len() > 0,
                fields[0] == FrameView::Integer(num_keys as nat),
                rest == fields.drop_first(),
                i <= num_keys,
                i <= leading_texts(rest) <= rest.len(),
                forall|j: int| 0 <= j < leading_texts(rest) ==> rest[j].is_text(),
                leading_texts(rest) < rest.len() ==> !rest[leading_texts(rest) as int].is_text(),
                parse@ == rest.skip(i as int),
                keys@.len() == i,
                forall|j: int| 0 <= j < i ==> keys@[j]@ == rest[j].text(),
            decreases num_keys - i,
        {
            let key = parse.next_string()?;
            keys.push(key);
            i = i + 1;
        }
        assert(keys.deep_view() =~= Seq::new(num_keys as nat, |j: int| rest[j].text()));
        Ok(MultiGet::new(keys))
    }

    /// Executes the command with `lookup` as the store's single-key read:
    /// calls it once per key, in the order of the request, and collects the
    /// outcomes into the one response frame. Nothing is assumed to relate one
    /// call to the next, so the store may change between them.
    pub fn apply_with<F: Fn(&str) -> Option<Bytes>>(self, lookup: F) -> (response: Frame)
        requires
            forall|name: &str| self@.contains(name@) ==> lookup.requires((name,)),
        ensures
            response@ is Array,
            response@->Array_0.len() == self@.len(),
            forall|i: int|
                0 <= i < self@.len() ==> looked_up(lookup, self@[i], #[trigger] response@->Array_0[i]),
    {
        let mut response = Frame::array();
        let mut i: usize = 0;
        while i < self.keys.len()
            invariant
                forall|name: &str| self@.contains(name@) ==> lookup.requires((name,)),
                i <= self.keys.len(),
                response@ is Array,
                response@->Array_0.len() == i,
                forall|j: int|
                    0 <= j < i ==> looked_up(lookup, self@[j], #[trigger] response@->Array_0[j]),
            decreases self.keys.len() - i,
        {
            let name = self.keys[i].as_str();
            assert(name@ == self@[i as int]);
            if let Some(value) = lookup(name) {
                assert(looked_up(lookup, self@[i as int], response_entry(Some(value))));
                response.push_bulk(value);
            } else {
                assert(looked_up(lookup, self@[i as int], response_entry(None)));
                response.push_null();
            }
            i = i + 1;
        }
        response
    }

    /// Executes the command against `db` and returns the response: for each
    /// key, in the order of the request, the stored value as a bulk frame, or
    /// null where the store has no such key.
    pub fn apply(self, db: &Db) -> (response: Frame)
        ensures
            response@ is Array,
            response@->Array_0.len() == self@.len(),
            forall|i: int|
                0 <= i < self@.len() ==> #[trigger] response@->Array_0[i] == stored_entry(
                    db@,
                    self@[i],
                ),
            response@ == response_frame(self@, db@),
    {
        let lookup = |name: &str| -> (value: Option<Bytes>)
            ensures
                response_entry(value) == stored_entry(db@, name@),
            { db.get(name) };
        let response = self.apply_with(lookup);
        assert(response@->Array_0 =~= response_frame(self@, db@)->Array_0);
        response
    }

    /// Converts the command into the frame that a client sends for it.
    pub fn into_frame(self) -> (frame: Frame)
        ensures
            frame@ == request_frame(self@),
    {
        let ghost names = self.keys@;
        let mut frame = Frame::array();
        frame.push_bulk(bytes_from_static("multiget".as_bytes()));
        frame.push_int(self.keys.len() as u64);
        assert(frame@->Array_0 =~= request_frame(self@)->Array_0.take(2));
        for key in iter: self.keys
            invariant
                iter.seq() == names,
                names == self.keys@,
                frame@ is Array,
                frame@->Array_0 == request_frame(self@)->Array_0.take(2 + iter.index()),
        {
            frame.push_bulk(bytes_from_vec(string_into_bytes(key)));
            assert(frame@->Array_0 =~= request_frame(self@)->Array_0.take(2 + iter.index() + 1));
        }
        assert(frame@->Array_0 =~= request_frame(self@)->Array_0);
        frame
    }
}

} // verus!
