//! Reading a JSON text sequence out of an in-memory byte stream: one record
//! at a time, as raw bytes, as text, or as a parsed JSON value.

use crate::json::{decode_value, json_decoding, json_depth, json_encoding};
use crate::records::{after_first_record, records_of, rs_free, LF, RS};
use crate::CodecError;
use vstd::prelude::*;
use vstd::slice::slice_to_vec;
use vstd::string::StrSliceExecFns;
use vstd::string::StringSliceAdditionalSpecFns;
use vstd::utf8::decode_utf8;
use vstd::utf8::encode_utf8;
use vstd::utf8::valid_utf8;

verus! {

/// Relies on String::from_utf8: it succeeds exactly on valid UTF-8 input,
/// and the characters of the string it builds are the input's decoding.
#[verifier::external_body]
fn utf8_string(bytes: Vec<u8>) -> (r: Option<String>)
    ensures
        r matches Some(s) ==> valid_utf8(bytes@) && s@ == decode_utf8(bytes@),
        r is None ==> !valid_utf8(bytes@),
{
    match String::from_utf8(bytes) {
        Ok(s) => Some(s),
        Err(_) => None,
    }
}

/// What one delimited-read attempt against a byte stream produced.
pub enum ReadStep {
    /// Nothing was read: the sequence has ended.
    End,
    /// A lone separator: an empty segment between records, to be skipped.
    Skip,
    /// A record's content, its trailing separator already stripped.
    Record(Vec<u8>),
}

/// Decide what one read-up-to-separator attempt yielded: nothing means the
/// sequence ended; a lone separator is an empty segment to skip silently;
/// anything else is a record, minus its trailing separator when the stream
/// did not end first.
pub fn classify_chunk(chunk: Vec<u8>) -> (r: ReadStep)
    ensures
        chunk@.len() == 0 ==> r is End,
        chunk@ == seq![RS] ==> r is Skip,
        chunk@.len() > 0 && chunk@ != seq![RS] ==> (r matches ReadStep::Record(v) && v@ == (
        if chunk@.last() == RS {
            chunk@.drop_last()
        } else {
            chunk@
        })),
{
    if chunk.len() == 0 {
        ReadStep::End
    } else if chunk.len() == 1 && chunk[0] == RS {
        proof {
            assert(chunk@ =~= seq![RS]);
        }
        ReadStep::Skip
    } else {
        let mut chunk = chunk;
        proof {
            if chunk@.len() == 1 {
                assert(chunk@ != seq![RS]);
                assert(chunk@[0] != RS);
            }
        }
        if chunk[chunk.len() - 1] == RS {
            chunk.pop();
        }
        ReadStep::Record(chunk)
    }
}

/// Reads records out of an owned in-memory byte stream, one at a time.
pub struct JsonSeqReader {
    bytes: Vec<u8>,
    pos: usize,
}

impl JsonSeqReader {
    /// Every byte of the wrapped stream, consumed or not.
    pub closed spec fn stream(self) -> Seq<u8> {
        self.bytes@
    }

    /// How many bytes of the stream have been consumed so far.
    pub closed spec fn position(self) -> int {
        self.pos as int
    }

    /// The bytes of the stream not yet consumed.
    pub open spec fn remaining(self) -> Seq<u8> {
        if self.position() <= self.stream().len() {
            self.stream().subrange(self.position(), self.stream().len() as int)
        } else {
            Seq::empty()
        }
    }

    /// Construct from an owned in-memory byte stream.
    pub fn new(inner: Vec<u8>) -> (r: Self)
        ensures
            r.stream() == inner@,
            r.position() == 0,
            r.remaining() == inner@,
    {
        let r = JsonSeqReader { bytes: inner, pos: 0 };
        proof {
            assert(r.remaining() =~= r.stream());
        }
        r
    }

    /// Helper constructor from a byte slice.
    pub fn new_from_slice(s: &[u8]) -> (r: Self)
        ensures
            r.stream() == s@,
            r.position() == 0,
            r.remaining() == s@,
    {
        Self::new(slice_to_vec(s))
    }

    /// Helper constructor from a string slice: the stream is its UTF-8 bytes.
    pub fn new_from_str(s: &str) -> (r: Self)
        ensures
            r.stream() == s.spec_bytes(),
            r.position() == 0,
            r.remaining() == s.spec_bytes(),
    {
        Self::new(s.as_bytes_vec())
    }

    /// Helper constructor from an owned string: the stream is its UTF-8 bytes.
    pub fn new_from_string(s: String) -> (r: Self)
        ensures
            r.stream() == encode_utf8(s@),
            r.position() == 0,
            r.remaining() == encode_utf8(s@),
    {
        Self::new(s.as_str().as_bytes_vec())
    }

    /// Read the next record's raw bytes, or nothing once the stream is
    /// exhausted. Consecutive separators collapse: no empty record is ever
    /// produced. A final segment without a trailing separator still counts.
    /// Exhaustion is stable: after it, every later call reports it again.
    /// Exactly the first record's bytes, the separators before it and the
    /// one separator ending it are consumed, nothing further.
    pub fn next_item_raw(&mut self) -> (r: Result<Option<Vec<u8>>, CodecError>)
        ensures
            r is Ok,
            r matches Ok(Some(v)) ==> records_of(old(self).remaining()).len() > 0 && v@
                == records_of(old(self).remaining())[0] && v@.len() > 0 && rs_free(v@)
                && records_of(final(self).remaining()) == records_of(
                old(self).remaining(),
            ).skip(1),
            r matches Ok(None) ==> records_of(old(self).remaining()).len() == 0 && final(self).remaining() == Seq::<u8>::empty(),
            final(self).remaining() == after_first_record(old(self).remaining()),
            final(self).stream() == old(self).stream(),
    {
        let ghost bytes0 = self.bytes@;
        let ghost rem0 = self.remaining();
        if self.pos >= self.bytes.len() {
            self.pos = self.bytes.len();
            proof {
                assert(rem0 =~= Seq::<u8>::empty());
                assert(self.remaining() =~= Seq::<u8>::empty());
            }
            return Ok(None);
        }
        // Skip the separators that precede the next record, if any.
        while self.pos < self.bytes.len() && self.bytes[self.pos] == RS
            invariant
                self.bytes@ == bytes0,
                self.pos <= bytes0.len(),
                records_of(self.remaining()) == records_of(rem0),
                after_first_record(self.remaining()) == after_first_record(rem0),
            decreases bytes0.len() - self.pos,
        {
            let ghost pre = self.remaining();
            self.pos = self.pos + 1;
            proof {
                assert(pre[0] == RS);
                assert(pre.skip(1) =~= self.remaining());
            }
        }
        if self.pos == self.bytes.len() {
            proof {
                assert(self.remaining() =~= Seq::<u8>::empty());
            }
            return Ok(None);
        }
        let ghost rem = self.remaining();
        assert(rem[0] == bytes0[self.pos as int] && rem[0] != RS);
        // Scan up to the next separator or the end of the stream.
        let start: usize = self.pos;
        let mut end: usize = self.pos;
        while end < self.bytes.len() && self.bytes[end] != RS
            invariant
                self.bytes@ == bytes0,
                self.pos == start,
                start <= end <= bytes0.len(),
                forall|j: int| start <= j < end ==> bytes0[j] != RS,
            decreases bytes0.len() - end,
        {
            end = end + 1;
        }
        let ghost i = end - start;
        proof {
            assert forall|j: int| 0 <= j < i implies rem[j] != RS by {
                assert(rem[j] == bytes0[start + j]);
            }
            if i < rem.len() {
                assert(rem[i] == bytes0[end as int]);
            }
            crate::records::lemma_find_rs_is(rem, i);
        }
        // Copy the record's content out of the stream.
        let mut out: Vec<u8> = Vec::new();
        let mut j: usize = start;
        while j < end
            invariant
                self.bytes@ == bytes0,
                start <= j <= end <= bytes0.len(),
                out@ == bytes0.subrange(start as int, j as int),
            decreases end - j,
        {
            let b = self.bytes[j];
            out.push(b);
            proof {
                assert(bytes0.subrange(start as int, j + 1) =~= bytes0.subrange(
                    start as int,
                    j as int,
                ).push(bytes0[j as int]));
            }
            j = j + 1;
        }
        assert(end > start);
        if end < self.bytes.len() {
            // The record ended at a separator: resume after it.
            self.pos = end + 1;
            proof {
                assert(out@ =~= rem.take(i));
                assert(records_of(rem) == seq![rem.take(i)] + records_of(rem.skip(i + 1)));
                assert(self.remaining() =~= rem.skip(i + 1));
                assert(after_first_record(rem) == rem.skip(i + 1));
                assert(records_of(self.remaining()) =~= records_of(rem).skip(1));
                assert(out@ == records_of(rem)[0]);
            }
        } else {
            // The stream ended with unterminated content: the record is
            // everything that was left.
            self.pos = end;
            proof {
                assert(out@ =~= rem);
                assert(records_of(rem) == seq![rem]);
                assert(after_first_record(rem) == Seq::<u8>::empty());
                assert(self.remaining() =~= Seq::<u8>::empty());
                assert(records_of(self.remaining()) =~= records_of(rem).skip(1));
                assert(out@ == records_of(rem)[0]);
            }
        }
        Ok(Some(out))
    }

    /// Read the next record decoded as UTF-8 text; a record whose bytes are
    /// not valid UTF-8 is consumed and reported as a text-decode error.
    pub fn next_item_str(&mut self) -> (r: Result<Option<String>, CodecError>)
        ensures
            r matches Ok(Some(s)) ==> records_of(old(self).remaining()).len() > 0 && valid_utf8(
                records_of(old(self).remaining())[0],
            ) && s@ == decode_utf8(records_of(old(self).remaining())[0]) && records_of(
                final(self).remaining(),
            ) == records_of(old(self).remaining()).skip(1),
            r matches Ok(None) ==> records_of(old(self).remaining()).len() == 0 && final(self).remaining() == Seq::<u8>::empty(),
            r matches Err(e) ==> e is Utf8Error && records_of(old(self).remaining()).len() > 0
                && !valid_utf8(records_of(old(self).remaining())[0]) && records_of(
                final(self).remaining(),
            ) == records_of(old(self).remaining()).skip(1),
            final(self).remaining() == after_first_record(old(self).remaining()),
            final(self).stream() == old(self).stream(),
    {
        match self.next_item_raw() {
            Ok(None) => Ok(None),
            Ok(Some(bytes)) => match utf8_string(bytes) {
                Some(s) => Ok(Some(s)),
                None => Err(CodecError::Utf8Error),
            },
            Err(e) => Err(e),
        }
    }

    /// Read and parse the next record as a JSON value; a record whose bytes
    /// are not valid JSON is consumed and reported as a decode error. A
    /// record that is the compact encoding of a value whose nesting stays
    /// within the parser's recursion limit, with or without its line feed
    /// terminator, is owed success: that value comes back, and no other.
    pub fn next_from_json(&mut self) -> (r: Result<Option<serde_json::Value>, CodecError>)
        ensures
            r matches Ok(Some(v)) ==> records_of(old(self).remaining()).len() > 0 && json_decoding(
                records_of(old(self).remaining())[0],
            ) == Some(v) && json_depth(v) <= 128 && records_of(final(self).remaining())
                == records_of(old(self).remaining()).skip(1),
            r matches Ok(Some(v)) ==> forall|w: serde_json::Value| #![trigger json_encoding(w)]
                (records_of(old(self).remaining())[0] == json_encoding(w) || records_of(
                    old(self).remaining(),
                )[0] == json_encoding(w).push(LF)) ==> v == w,
            r matches Ok(None) ==> records_of(old(self).remaining()).len() == 0 && final(self).remaining() == Seq::<u8>::empty(),
            r matches Err(e) ==> e is JsonError && records_of(old(self).remaining()).len() > 0
                && json_decoding(records_of(old(self).remaining())[0]) is None && records_of(
                final(self).remaining(),
            ) == records_of(old(self).remaining()).skip(1),
            forall|w: serde_json::Value| #![trigger json_encoding(w)]
                (records_of(old(self).remaining()).len() > 0 && json_depth(w) <= 128 && (
                records_of(old(self).remaining())[0] == json_encoding(w) || records_of(
                    old(self).remaining(),
                )[0] == json_encoding(w).push(LF))) ==> r == Ok::<
                    Option<serde_json::Value>,
                    CodecError,
                >(Some(w)),
            final(self).remaining() == after_first_record(old(self).remaining()),
            final(self).stream() == old(self).stream(),
    {
        match self.next_item_raw() {
            Ok(None) => Ok(None),
            Ok(Some(bytes)) => match decode_value(bytes.as_slice()) {
                Ok(v) => Ok(Some(v)),
                Err(e) => Err(CodecError::JsonError(e)),
            },
            Err(e) => Err(e),
        }
    }

    /// Return a reference to the wrapped stream.
    pub fn get_ref(&self) -> (r: &Vec<u8>)
        ensures
            r@ == self.stream(),
    {
        &self.bytes
    }

    /// Return a mutable reference to the wrapped stream.
    pub fn get_mut(&mut self) -> (r: &mut Vec<u8>)
        ensures
            r@ == old(self).stream(),
            final(self).stream() == final(r)@,
            final(self).position() == old(self).position(),
    {
        &mut self.bytes
    }

    /// Consume this and return the wrapped stream.
    pub fn into_inner(self) -> (r: Vec<u8>)
        ensures
            r@ == self.stream(),
    {
        self.bytes
    }
}

impl From<Vec<u8>> for JsonSeqReader {
    fn from(rdr: Vec<u8>) -> (r: Self) {
        JsonSeqReader { bytes: rdr, pos: 0 }
    }
}

impl vstd::std_specs::convert::FromSpecImpl<Vec<u8>> for JsonSeqReader {
    open spec fn obeys_from_spec() -> bool {
        true
    }

    closed spec fn from_spec(rdr: Vec<u8>) -> Self {
        JsonSeqReader { bytes: rdr, pos: 0 }
    }
}

/// What conversion from an owned byte stream builds: a reader over that
/// whole stream, positioned at its start, the same as `new` constructs.
pub broadcast proof fn lemma_reader_from_spec(rdr: Vec<u8>)
    ensures
        (#[trigger] <JsonSeqReader as vstd::std_specs::convert::FromSpec<Vec<u8>>>::from_spec(
            rdr,
        )).stream() == rdr@,
        <JsonSeqReader as vstd::std_specs::convert::FromSpec<Vec<u8>>>::from_spec(
            rdr,
        ).position() == 0,
        <JsonSeqReader as vstd::std_specs::convert::FromSpec<Vec<u8>>>::from_spec(
            rdr,
        ).remaining() == rdr@,
{
    let r = <JsonSeqReader as vstd::std_specs::convert::FromSpec<Vec<u8>>>::from_spec(rdr);
    assert(r.remaining() =~= rdr@);
}

} // verus!
