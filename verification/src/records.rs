//! The byte-level shape of a JSON text sequence: what counts as a record
//! inside a byte stream, and the exact bytes a writer emits around one.

use vstd::prelude::*;

verus! {

/// The ASCII record separator octet: the boundary between records.
pub const RS: u8 = 0x1E;

/// The ASCII line feed octet: appended after each record's content on write.
pub const LF: u8 = 0x0A;

/// Holds when no byte of `s` is the record separator.
pub open spec fn rs_free(s: Seq<u8>) -> bool {
    forall|i: int| 0 <= i < s.len() ==> s[i] != RS
}

/// Index of the first record separator in `s`, or `s.len()` if there is none.
pub open spec fn find_rs(s: Seq<u8>) -> int
    decreases s.len(),
{
    if s.len() == 0 {
        0
    } else if s[0] == RS {
        0
    } else {
        1 + find_rs(s.skip(1))
    }
}

/// `find_rs` lands on the first separator, or at the end if there is none.
pub proof fn lemma_find_rs(s: Seq<u8>)
    ensures
        0 <= find_rs(s) <= s.len(),
        forall|j: int| 0 <= j < find_rs(s) ==> s[j] != RS,
        find_rs(s) < s.len() ==> s[find_rs(s)] == RS,
    decreases s.len(),
{
    if s.len() == 0 {
    } else if s[0] == RS {
    } else {
        lemma_find_rs(s.skip(1));
        assert forall|j: int| 0 <= j < find_rs(s) implies s[j] != RS by {
            if j >= 1 {
                assert(s.skip(1)[j - 1] == s[j]);
            }
        }
        if find_rs(s) < s.len() {
            assert(s.skip(1)[find_rs(s) - 1] == s[find_rs(s)]);
        }
    }
}

/// A position below which there is no separator, and which holds one or is
/// the end, is where `find_rs` lands.
pub proof fn lemma_find_rs_is(s: Seq<u8>, i: int)
    requires
        0 <= i <= s.len(),
        forall|j: int| 0 <= j < i ==> s[j] != RS,
        i < s.len() ==> s[i] == RS,
    ensures
        find_rs(s) == i,
    decreases s.len(),
{
    if s.len() == 0 {
    } else if s[0] == RS {
        assert(i == 0);
    } else {
        assert(i >= 1);
        assert forall|j: int| 0 <= j < i - 1 implies s.skip(1)[j] != RS by {
            assert(s.skip(1)[j] == s[j + 1]);
        }
        if i - 1 < s.skip(1).len() {
            assert(s.skip(1)[i - 1] == s[i]);
        }
        lemma_find_rs_is(s.skip(1), i - 1);
    }
}

/// The records framed inside a byte stream. Leading and consecutive
/// separators collapse into one boundary, and a final segment left
/// unterminated at the end of the stream still counts as a record.
pub open spec fn records_of(s: Seq<u8>) -> Seq<Seq<u8>>
    decreases s.len(),
    via records_of_decreases
{
    if s.len() == 0 {
        Seq::empty()
    } else if s[0] == RS {
        records_of(s.skip(1))
    } else if find_rs(s) == s.len() {
        seq![s]
    } else {
        seq![s.take(find_rs(s))] + records_of(s.skip(find_rs(s) + 1))
    }
}

#[via_fn]
proof fn records_of_decreases(s: Seq<u8>) {
    if s.len() > 0 && s[0] != RS {
        lemma_find_rs(s);
    }
}

/// What is left of a stream once its first record, with the separators
/// before it and the one separator ending it, has been consumed: stray
/// separators after that boundary stay. A stream holding no record is
/// consumed whole.
pub open spec fn after_first_record(s: Seq<u8>) -> Seq<u8>
    decreases s.len(),
    via after_first_record_decreases
{
    if s.len() == 0 {
        Seq::empty()
    } else if s[0] == RS {
        after_first_record(s.skip(1))
    } else if find_rs(s) == s.len() {
        Seq::empty()
    } else {
        s.skip(find_rs(s) + 1)
    }
}

#[via_fn]
proof fn after_first_record_decreases(s: Seq<u8>) {
    if s.len() > 0 && s[0] != RS {
        lemma_find_rs(s);
    }
}

/// A nonempty stream with no separator in it is one record: itself.
pub proof fn lemma_records_of_rs_free(s: Seq<u8>)
    requires
        s.len() > 0,
        rs_free(s),
    ensures
        records_of(s) == seq![s],
{
    lemma_find_rs_is(s, s.len() as int);
}

/// No record is empty, and no record contains the separator: consecutive
/// separators never yield an empty record, and boundaries never leak into
/// record content.
pub proof fn lemma_records_wf(s: Seq<u8>)
    ensures
        forall|k: int|
            0 <= k < records_of(s).len() ==> (#[trigger] records_of(s)[k]).len() > 0 && rs_free(
                records_of(s)[k],
            ),
    decreases s.len(),
{
    if s.len() == 0 {
    } else if s[0] == RS {
        lemma_records_wf(s.skip(1));
        assert(records_of(s) == records_of(s.skip(1)));
        assert forall|k: int|
            0 <= k < records_of(s).len() implies (#[trigger] records_of(s)[k]).len() > 0 && rs_free(
            records_of(s)[k],
        ) by {
            assert(records_of(s)[k] == records_of(s.skip(1))[k]);
        }
    } else {
        lemma_find_rs(s);
        let i = find_rs(s);
        if i == s.len() {
            assert(rs_free(s));
            assert forall|k: int|
                0 <= k < records_of(s).len() implies (#[trigger] records_of(s)[k]).len() > 0
                && rs_free(records_of(s)[k]) by {
                assert(records_of(s)[k] == s);
            }
        } else {
            lemma_records_wf(s.skip(i + 1));
            assert forall|k: int|
                0 <= k < records_of(s).len() implies (#[trigger] records_of(s)[k]).len() > 0
                && rs_free(records_of(s)[k]) by {
                if k == 0 {
                    assert(records_of(s)[0] == s.take(i));
                    assert forall|j: int| 0 <= j < s.take(i).len() implies s.take(i)[j] != RS by {
                        assert(s.take(i)[j] == s[j]);
                    }
                } else {
                    assert(records_of(s)[k] == records_of(s.skip(i + 1))[k - 1]);
                }
            }
        }
    }
}

/// The exact bytes a writer emits for one record's content: the separator,
/// the content, then the line feed.
pub open spec fn framed(c: Seq<u8>) -> Seq<u8> {
    seq![RS] + c + seq![LF]
}

/// The whole stream a writer emits for a list of record contents, in order.
pub open spec fn frame_all(cs: Seq<Seq<u8>>) -> Seq<u8>
    decreases cs.len(),
{
    if cs.len() == 0 {
        Seq::empty()
    } else {
        frame_all(cs.drop_last()) + framed(cs.last())
    }
}

/// A separator is a record boundary, and nothing else is: the records on
/// either side of one separator are parsed independently and concatenated.
/// In particular a line feed, or any other byte, inside content never
/// splits a record.
pub proof fn lemma_records_of_split(s: Seq<u8>, t: Seq<u8>)
    ensures
        records_of(s + seq![RS] + t) == records_of(s) + records_of(t),
    decreases s.len(),
{
    let u = s + seq![RS] + t;
    if s.len() == 0 {
        assert(u[0] == RS);
        assert(u.skip(1) =~= t);
        assert(records_of(u) == records_of(t));
        assert(records_of(s) + records_of(t) =~= records_of(t));
    } else if s[0] == RS {
        assert(u[0] == RS);
        assert(u.skip(1) =~= s.skip(1) + seq![RS] + t);
        lemma_records_of_split(s.skip(1), t);
    } else {
        lemma_find_rs(s);
        let i = find_rs(s);
        assert forall|j: int| 0 <= j < i implies u[j] != RS by {
            assert(u[j] == s[j]);
        }
        if i == s.len() {
            assert(u[i] == RS);
            lemma_find_rs_is(u, i);
            assert(u.take(i) =~= s);
            assert(u.skip(i + 1) =~= t);
            assert(records_of(u) == seq![s] + records_of(t));
        } else {
            assert(u[i] == s[i]);
            lemma_find_rs_is(u, i);
            assert(u.take(i) =~= s.take(i));
            assert(u.skip(i + 1) =~= s.skip(i + 1) + seq![RS] + t);
            lemma_records_of_split(s.skip(i + 1), t);
            assert(records_of(u) == seq![s.take(i)] + (records_of(s.skip(i + 1)) + records_of(t)));
            assert(records_of(s) + records_of(t) =~= seq![s.take(i)] + (records_of(
                s.skip(i + 1),
            ) + records_of(t)));
        }
    }
}

/// A stream of separators and nothing else holds no records at all.
pub proof fn lemma_separators_only(s: Seq<u8>)
    requires
        forall|i: int| 0 <= i < s.len() ==> s[i] == RS,
    ensures
        records_of(s).len() == 0,
    decreases s.len(),
{
    if s.len() > 0 {
        lemma_separators_only(s.skip(1));
    }
}

/// An unterminated final segment — separator-free content after a
/// separator, with no separator following it before the stream ends — is
/// still one whole record, not discarded and not an error.
pub proof fn lemma_unterminated_tail(s: Seq<u8>, c: Seq<u8>)
    requires
        rs_free(c),
        c.len() > 0,
    ensures
        records_of(s + seq![RS] + c) == records_of(s).push(c),
{
    lemma_records_of_split(s, c);
    lemma_records_of_rs_free(c);
    assert(records_of(s) + seq![c] =~= records_of(s).push(c));
}

/// Framing one record onto the end of any stream adds exactly one record
/// when it is parsed back: the content with its line feed terminator.
pub proof fn lemma_records_of_append(s: Seq<u8>, c: Seq<u8>)
    requires
        rs_free(c),
    ensures
        records_of(s + framed(c)) == records_of(s).push(c.push(LF)),
{
    let tail = c.push(LF);
    assert(rs_free(tail));
    assert(s + framed(c) =~= s + seq![RS] + tail);
    lemma_records_of_split(s, tail);
    lemma_records_of_rs_free(tail);
    assert(records_of(s) + seq![tail] =~= records_of(s).push(tail));
}

/// Round trip of the framing: writing a list of separator-free contents and
/// parsing the produced stream back yields exactly those contents, each with
/// its line feed terminator, in order.
pub proof fn lemma_round_trip(cs: Seq<Seq<u8>>)
    requires
        forall|k: int| 0 <= k < cs.len() ==> rs_free(#[trigger] cs[k]),
    ensures
        records_of(frame_all(cs)) == cs.map(|k: int, c: Seq<u8>| c.push(LF)),
    decreases cs.len(),
{
    let framed_cs = cs.map(|k: int, c: Seq<u8>| c.push(LF));
    if cs.len() == 0 {
        assert(records_of(frame_all(cs)) =~= framed_cs);
    } else {
        let pre = cs.drop_last();
        lemma_round_trip(pre);
        assert(cs[cs.len() - 1] == cs.last());
        lemma_records_of_append(frame_all(pre), cs.last());
        assert(records_of(frame_all(cs)) =~= framed_cs);
    }
}

} // verus!
