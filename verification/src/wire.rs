//! Length-delimited fields, the parts that every frame is made of.
//!
//! A length travels as eight bytes, least significant first. A run of bytes
//! travels as its length and then the bytes. A text travels as the run of
//! its UTF-8 bytes. For each kind of field there is its wire form, the
//! reading of a field at a position, and the proof that the two agree.

use vstd::prelude::*;
use vstd::bytes::{
    lemma_auto_spec_u64_to_from_le_bytes, spec_u64_from_le_bytes, spec_u64_to_le_bytes,
    u64_from_le_bytes, u64_to_le_bytes,
};
use vstd::slice::{slice_subrange, slice_to_vec};
use vstd::string::*;
use vstd::utf8::{
    decode_utf8, decode_utf8_encode_utf8, encode_utf8, encode_utf8_decode_utf8,
    encode_utf8_valid_utf8, valid_utf8,
};
use crate::text::decode_strict;

verus! {

/// Whether a length can be written at all: it has to fit in 64 bits.
pub open spec fn fits(n: nat) -> bool {
    n <= u64::MAX
}

/// The wire form of a length.
pub open spec fn length_wire(n: nat) -> Seq<u8> {
    spec_u64_to_le_bytes(n as u64)
}

/// The wire form of a run of bytes: its length, then the bytes.
pub open spec fn bytes_wire(run: Seq<u8>) -> Seq<u8> {
    length_wire(run.len()) + run
}

/// The wire form of a text: the run of its UTF-8 bytes.
pub open spec fn text_wire(text: Seq<char>) -> Seq<u8> {
    bytes_wire(encode_utf8(text))
}

/// Whether a text can be written: its UTF-8 length has to fit.
pub open spec fn text_fits(text: Seq<char>) -> bool {
    fits(encode_utf8(text).len())
}

/// Whether `part` stands in `whole` at position `at`.
pub open spec fn holds_at(whole: Seq<u8>, at: int, part: Seq<u8>) -> bool {
    &&& 0 <= at
    &&& at + part.len() <= whole.len()
    &&& whole.subrange(at, at + part.len()) == part
}

/// The length that stands at `at`, and the position after it.
pub open spec fn read_length(whole: Seq<u8>, at: int) -> Option<(nat, int)> {
    if 0 <= at && at + 8 <= whole.len() {
        Some((spec_u64_from_le_bytes(whole.subrange(at, at + 8)) as nat, at + 8))
    } else {
        None
    }
}

/// The run of bytes that stands at `at`, and the position after it.
pub open spec fn read_bytes(whole: Seq<u8>, at: int) -> Option<(Seq<u8>, int)> {
    match read_length(whole, at) {
        Some((n, start)) => if start + n <= whole.len() {
            Some((whole.subrange(start, start + n), start + n))
        } else {
            None
        },
        None => None,
    }
}

/// The text that stands at `at`, and the position after it.
pub open spec fn read_text(whole: Seq<u8>, at: int) -> Option<(Seq<char>, int)> {
    match read_bytes(whole, at) {
        Some((raw, end)) => if valid_utf8(raw) {
            Some((decode_utf8(raw), end))
        } else {
            None
        },
        None => None,
    }
}

/// Two parts stand one after the other exactly when their concatenation stands.
pub proof fn lemma_holds_at_concat(whole: Seq<u8>, at: int, first: Seq<u8>, second: Seq<u8>)
    ensures
        holds_at(whole, at, first + second) <==> holds_at(whole, at, first) && holds_at(
            whole,
            at + first.len(),
            second,
        ),
{
    let both = first + second;
    if holds_at(whole, at, both) {
        let found = whole.subrange(at, at + both.len());
        assert forall|i: int| 0 <= i < first.len() implies whole[at + i] == first[i] by {
            assert(found[i] == both[i]);
        }
        assert forall|i: int| 0 <= i < second.len() implies whole[at + first.len() + i]
            == second[i] by {
            assert(found[first.len() + i] == both[first.len() + i]);
        }
        assert(whole.subrange(at, at + first.len()) =~= first);
        assert(whole.subrange(at + first.len(), at + first.len() + second.len()) =~= second);
    }
    if holds_at(whole, at, first) && holds_at(whole, at + first.len(), second) {
        let a = whole.subrange(at, at + first.len());
        let b = whole.subrange(at + first.len(), at + first.len() + second.len());
        assert forall|i: int| 0 <= i < both.len() implies whole[at + i] == both[i] by {
            if i < first.len() {
                assert(a[i] == first[i]);
            } else {
                assert(b[i - first.len()] == second[i - first.len()]);
            }
        }
        assert(whole.subrange(at, at + both.len()) =~= both);
    }
}

/// A part that stands at the very start and is as long as the whole is the whole.
pub proof fn lemma_holds_at_whole(whole: Seq<u8>, part: Seq<u8>)
    ensures
        whole == part <==> holds_at(whole, 0, part) && part.len() == whole.len(),
{
    if holds_at(whole, 0, part) && part.len() == whole.len() {
        assert(whole.subrange(0, whole.len() as int) =~= whole);
    }
    if whole == part {
        assert(whole.subrange(0, whole.len() as int) =~= whole);
    }
}

/// Every length has a wire form of eight bytes.
pub proof fn lemma_length_wire_len(n: nat)
    ensures
        length_wire(n).len() == 8,
{
    lemma_auto_spec_u64_to_from_le_bytes();
}

/// What `read_length` reads is a length that fits, in its wire form.
pub proof fn lemma_length_sound(whole: Seq<u8>, at: int)
    requires
        read_length(whole, at) is Some,
    ensures
        ({
            let (n, end) = read_length(whole, at)->0;
            &&& fits(n)
            &&& holds_at(whole, at, length_wire(n))
            &&& end == at + length_wire(n).len()
        }),
{
    lemma_auto_spec_u64_to_from_le_bytes();
    let field = whole.subrange(at, at + 8);
    assert(spec_u64_to_le_bytes(spec_u64_from_le_bytes(field)) == field);
}

/// Where the wire form of a length stands, `read_length` reads that length.
pub proof fn lemma_length_complete(whole: Seq<u8>, at: int, n: nat)
    requires
        fits(n),
        holds_at(whole, at, length_wire(n)),
    ensures
        read_length(whole, at) == Some((n, at + length_wire(n).len())),
{
    lemma_auto_spec_u64_to_from_le_bytes();
    assert(spec_u64_from_le_bytes(spec_u64_to_le_bytes(n as u64)) == n as u64);
}

/// What `read_bytes` reads is a run that fits, in its wire form.
pub proof fn lemma_bytes_sound(whole: Seq<u8>, at: int)
    requires
        read_bytes(whole, at) is Some,
    ensures
        ({
            let (run, end) = read_bytes(whole, at)->0;
            &&& fits(run.len())
            &&& holds_at(whole, at, bytes_wire(run))
            &&& end == at + bytes_wire(run).len()
        }),
{
    lemma_length_sound(whole, at);
    let (n, start) = read_length(whole, at)->0;
    let run = whole.subrange(start, start + n);
    assert(holds_at(whole, start, run));
    lemma_holds_at_concat(whole, at, length_wire(n), run);
}

/// Where the wire form of a run stands, `read_bytes` reads that run.
pub proof fn lemma_bytes_complete(whole: Seq<u8>, at: int, run: Seq<u8>)
    requires
        fits(run.len()),
        holds_at(whole, at, bytes_wire(run)),
    ensures
        read_bytes(whole, at) == Some((run, at + bytes_wire(run).len())),
{
    lemma_holds_at_concat(whole, at, length_wire(run.len()), run);
    lemma_length_complete(whole, at, run.len());
}

/// What `read_text` reads is a text that fits, in its wire form.
pub proof fn lemma_text_sound(whole: Seq<u8>, at: int)
    requires
        read_text(whole, at) is Some,
    ensures
        ({
            let (text, end) = read_text(whole, at)->0;
            &&& text_fits(text)
            &&& holds_at(whole, at, text_wire(text))
            &&& end == at + text_wire(text).len()
        }),
{
    lemma_bytes_sound(whole, at);
    let (raw, end) = read_bytes(whole, at)->0;
    decode_utf8_encode_utf8(raw);
}

/// Where the wire form of a text stands, `read_text` reads that text.
pub proof fn lemma_text_complete(whole: Seq<u8>, at: int, text: Seq<char>)
    requires
        text_fits(text),
        holds_at(whole, at, text_wire(text)),
    ensures
        read_text(whole, at) == Some((text, at + text_wire(text).len())),
{
    lemma_bytes_complete(whole, at, encode_utf8(text));
    encode_utf8_valid_utf8(text);
    encode_utf8_decode_utf8(text);
}

/// Appends `raw` to `out` as it is.
pub(crate) fn put_raw(out: &mut Vec<u8>, raw: &[u8])
    ensures
        final(out)@ == old(out)@ + raw@,
{
    let mut i: usize = 0;
    while i < raw.len()
        invariant
            i <= raw.len(),
            out@ == old(out)@ + raw@.take(i as int),
        decreases raw.len() - i,
    {
        out.push(raw[i]);
        assert(out@ =~= old(out)@ + raw@.take(i + 1));
        i = i + 1;
    }
    assert(raw@.take(i as int) =~= raw@);
}

/// Appends the wire form of the number `n` to `out`.
pub(crate) fn put_length_u64(out: &mut Vec<u8>, n: u64)
    ensures
        final(out)@ == old(out)@ + length_wire(n as nat),
{
    let mut field = u64_to_le_bytes(n);
    out.append(&mut field);
}

/// Appends the wire form of the length `n` to `out`.
pub(crate) fn put_length(out: &mut Vec<u8>, n: usize)
    ensures
        final(out)@ == old(out)@ + length_wire(n as nat),
        fits(n as nat),
{
    put_length_u64(out, n as u64);
}

/// Appends the wire form of the run `run` to `out`.
pub(crate) fn put_bytes(out: &mut Vec<u8>, run: &[u8])
    ensures
        final(out)@ == old(out)@ + bytes_wire(run@),
        fits(run@.len()),
{
    put_length(out, run.len());
    put_raw(out, run);
    assert(out@ =~= old(out)@ + bytes_wire(run@));
}

/// Appends the wire form of `text` to `out`.
pub(crate) fn put_text(out: &mut Vec<u8>, text: &str)
    ensures
        final(out)@ == old(out)@ + text_wire(text@),
        text_fits(text@),
{
    put_bytes(out, text.as_bytes());
}

/// Reads the length at `at`.
pub(crate) fn take_length(whole: &[u8], at: usize) -> (res: Option<(u64, usize)>)
    requires
        at <= whole@.len(),
    ensures
        match res {
            Some((n, end)) => read_length(whole@, at as int) == Some((n as nat, end as int)),
            None => read_length(whole@, at as int) is None,
        },
{
    if whole.len() - at < 8 {
        None
    } else {
        let n = u64_from_le_bytes(slice_subrange(whole, at, at + 8));
        Some((n, at + 8))
    }
}

/// Reads the run of bytes at `at`.
pub(crate) fn take_bytes(whole: &[u8], at: usize) -> (res: Option<(Vec<u8>, usize)>)
    requires
        at <= whole@.len(),
    ensures
        match res {
            Some((run, end)) => read_bytes(whole@, at as int) == Some((run@, end as int)),
            None => read_bytes(whole@, at as int) is None,
        },
{
    match take_length(whole, at) {
        None => None,
        Some((n, start)) => {
            if n > (whole.len() - start) as u64 {
                None
            } else {
                let end = start + n as usize;
                Some((slice_to_vec(slice_subrange(whole, start, end)), end))
            }
        },
    }
}

/// Reads the text at `at`.
pub(crate) fn take_text(whole: &[u8], at: usize) -> (res: Option<(String, usize)>)
    requires
        at <= whole@.len(),
    ensures
        match res {
            Some((text, end)) => read_text(whole@, at as int) == Some((text@, end as int)),
            None => read_text(whole@, at as int) is None,
        },
{
    match take_bytes(whole, at) {
        None => None,
        Some((raw, end)) => match decode_strict(raw) {
            Some(text) => Some((text, end)),
            None => None,
        },
    }
}

} // verus!
