//! Writing a JSON text sequence onto an in-memory byte stream: each record
//! is the separator octet, the content, then a line feed.

use crate::json::{encode_value, json_decoding, json_encoding};
use crate::records::{frame_all, framed, lemma_round_trip, records_of, rs_free, LF, RS};
use crate::CodecError;
use vstd::prelude::*;

verus! {

/// Round trip for any finite list of JSON values, as one statement: the
/// stream written for them parses back into exactly one record per value,
/// in order, and each record whose decoding obeys the decoder's guarantee
/// — an encoding with its line feed decodes to its value, which holds at
/// every decode call — decodes to the value written. No record follows
/// the last, so exactly one end signal does, and it stays.
pub proof fn lemma_json_round_trip(vs: Seq<serde_json::Value>)
    requires
        forall|k: int| 0 <= k < vs.len() ==> rs_free(#[trigger] json_encoding(vs[k])),
    ensures
        records_of(frame_all(vs.map(|k: int, v: serde_json::Value| json_encoding(v)))).len()
            == vs.len(),
        forall|k: int|
            #![trigger json_encoding(vs[k])]
            (0 <= k < vs.len() && json_decoding(json_encoding(vs[k]).push(LF)) == Some(vs[k]))
                ==> json_decoding(
                records_of(frame_all(vs.map(|j: int, v: serde_json::Value| json_encoding(v))))[k],
            ) == Some(vs[k]),
{
    lemma_value_round_trip(vs);
    let recs = records_of(frame_all(vs.map(|k: int, v: serde_json::Value| json_encoding(v))));
    assert forall|k: int| 0 <= k < vs.len() implies #[trigger] recs[k] == json_encoding(
        vs[k],
    ).push(LF) by {
        assert(recs == vs.map(|k: int, v: serde_json::Value| json_encoding(v).push(LF)));
    }
}

/// Round trip at the value level: a stream that frames the compact
/// encodings of a list of JSON values, in order, parses back to exactly
/// one record per value — its encoding with the line feed terminator.
/// The premise, that no encoding holds the separator octet, is what the
/// encoder guarantees of every encoding it produces.
pub proof fn lemma_value_round_trip(vs: Seq<serde_json::Value>)
    requires
        forall|k: int| 0 <= k < vs.len() ==> rs_free(#[trigger] json_encoding(vs[k])),
    ensures
        records_of(frame_all(vs.map(|k: int, v: serde_json::Value| json_encoding(v)))) == vs.map(
            |k: int, v: serde_json::Value| json_encoding(v).push(LF),
        ),
{
    let cs = vs.map(|k: int, v: serde_json::Value| json_encoding(v));
    assert forall|k: int| 0 <= k < cs.len() implies rs_free(#[trigger] cs[k]) by {
        assert(cs[k] == json_encoding(vs[k]));
    }
    lemma_round_trip(cs);
    assert(cs.map(|k: int, c: Seq<u8>| c.push(LF)) =~= vs.map(
        |k: int, v: serde_json::Value| json_encoding(v).push(LF),
    ));
}

/// Writes records onto an owned in-memory byte stream with correct framing.
pub struct JsonSeqWriter {
    inner: Vec<u8>,
}

impl JsonSeqWriter {
    /// Every byte written to the wrapped stream so far, in order.
    pub closed spec fn stream(self) -> Seq<u8> {
        self.inner@
    }

    /// Construct a new JsonSeqWriter around an owned byte stream.
    pub fn new(inner: Vec<u8>) -> (r: Self)
        ensures
            r.stream() == inner@,
    {
        JsonSeqWriter { inner }
    }

    /// Write one record of raw bytes: the separator, the bytes verbatim,
    /// then a line feed. The caller guarantees that no byte of the content
    /// is the separator; an embedded separator would corrupt the framing.
    pub fn write_item_raw(&mut self, data: &[u8]) -> (r: Result<(), CodecError>)
        requires
            rs_free(data@),
        ensures
            r is Ok,
            final(self).stream() == old(self).stream() + framed(data@),
    {
        self.inner.push(RS);
        let mut j: usize = 0;
        while j < data.len()
            invariant
                j <= data@.len(),
                self.inner@ == old(self).inner@ + seq![RS] + data@.take(j as int),
            decreases data@.len() - j,
        {
            self.inner.push(data[j]);
            assert(data@.take(j + 1) == data@.take(j as int).push(data@[j as int]));
            j = j + 1;
        }
        self.inner.push(LF);
        assert(data@.take(data@.len() as int) == data@);
        assert(self.inner@ == old(self).inner@ + framed(data@));
        Ok(())
    }

    /// Write one JSON value as a record: its compact encoding, framed. The
    /// encoding is never empty and never holds the separator octet, so the
    /// framing stays intact.
    pub fn write_item(&mut self, value: &serde_json::Value) -> (r: Result<(), CodecError>)
        ensures
            r is Ok,
            final(self).stream() == old(self).stream() + framed(json_encoding(*value)),
            rs_free(json_encoding(*value)),
            json_encoding(*value).len() > 0,
    {
        match encode_value(value) {
            Ok(bytes) => self.write_item_raw(bytes.as_slice()),
            Err(e) => Err(CodecError::JsonError(e)),
        }
    }

    /// Return a reference to the wrapped stream.
    pub fn get_ref(&self) -> (r: &Vec<u8>)
        ensures
            r@ == self.stream(),
    {
        &self.inner
    }

    /// Return a mutable reference to the wrapped stream.
    pub fn get_mut(&mut self) -> (r: &mut Vec<u8>)
        ensures
            r@ == old(self).stream(),
            final(self).stream() == final(r)@,
    {
        &mut self.inner
    }

    /// Consume this and return the wrapped stream.
    pub fn into_inner(self) -> (r: Vec<u8>)
        ensures
            r@ == self.stream(),
    {
        self.inner
    }
}

impl From<Vec<u8>> for JsonSeqWriter {
    fn from(wtr: Vec<u8>) -> (r: Self) {
        JsonSeqWriter { inner: wtr }
    }
}

impl vstd::std_specs::convert::FromSpecImpl<Vec<u8>> for JsonSeqWriter {
    open spec fn obeys_from_spec() -> bool {
        true
    }

    closed spec fn from_spec(wtr: Vec<u8>) -> Self {
        JsonSeqWriter { inner: wtr }
    }
}

/// What conversion from an owned byte stream builds: a writer over that
/// stream with its bytes untouched, the same as `new` constructs.
pub broadcast proof fn lemma_writer_from_spec(wtr: Vec<u8>)
    ensures
        (#[trigger] <JsonSeqWriter as vstd::std_specs::convert::FromSpec<Vec<u8>>>::from_spec(
            wtr,
        )).stream() == wtr@,
{
}

} // verus!
