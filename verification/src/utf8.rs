//! Byte offsets into UTF-8 text.
//!
//! A text is a sequence of `char`s; an offset into it counts bytes of its UTF-8
//! encoding. An offset may only be used to cut the text where it does not split
//! the encoding of a `char`: at a boundary.

use vstd::prelude::*;
use vstd::string::*;
use vstd::utf8::*;

verus! {

/// Number of bytes that `text` takes up.
pub open spec fn utf8_len(text: Seq<char>) -> nat {
    encode_utf8(text).len()
}

/// Byte offset `at` lies between two `char`s of `text`, or at one of its ends.
pub open spec fn is_boundary(text: Seq<char>, at: int) -> bool {
    is_char_boundary(encode_utf8(text), at)
}

/// `from..to` cuts a piece out of `text` without splitting a `char`.
pub open spec fn is_cut(text: Seq<char>, from: int, to: int) -> bool {
    from <= to && is_boundary(text, from) && is_boundary(text, to)
}

/// The part of `text` in front of byte offset `at`.
pub open spec fn before(text: Seq<char>, at: int) -> Seq<char> {
    decode_utf8(encode_utf8(text).subrange(0, at))
}

/// The part of `text` from byte offset `at` on.
pub open spec fn after(text: Seq<char>, at: int) -> Seq<char> {
    decode_utf8(encode_utf8(text).subrange(at, encode_utf8(text).len() as int))
}

/// The part of `text` from byte offset `from` up to byte offset `to`.
pub open spec fn between(text: Seq<char>, from: int, to: int) -> Seq<char> {
    decode_utf8(encode_utf8(text).subrange(from, to))
}

/// `text` with the bytes `from..to` replaced by `insertion`.
pub open spec fn splice(text: Seq<char>, from: int, to: int, insertion: Seq<char>) -> Seq<char> {
    before(text, from) + insertion + after(text, to)
}

/// The nearest boundary of `text` at or before byte offset `offset`.
pub open spec fn floor_boundary(text: Seq<char>, offset: nat) -> int
    decreases offset,
{
    if offset >= utf8_len(text) {
        utf8_len(text) as int
    } else if is_boundary(text, offset as int) || offset == 0 {
        offset as int
    } else {
        floor_boundary(text, (offset - 1) as nat)
    }
}

/// The ends of a text are boundaries, and an offset inside it is one exactly
/// when the byte there does not continue a `char`.
pub proof fn lemma_boundary(text: Seq<char>, at: int)
    ensures
        valid_utf8(encode_utf8(text)),
        is_boundary(text, 0),
        is_boundary(text, utf8_len(text) as int),
        is_boundary(text, at) ==> 0 <= at <= utf8_len(text),
        0 <= at < utf8_len(text) ==> (is_boundary(text, at) <==> !is_continuation_byte(
            encode_utf8(text)[at],
        )),
{
    let bytes = encode_utf8(text);
    encode_utf8_valid_utf8(text);
    is_char_boundary_start_end_of_seq(bytes);
    if 0 <= at < bytes.len() {
        is_char_boundary_iff_not_is_continuation_byte(bytes, at);
    }
}

/// Cutting at a boundary gives two texts that hold the bytes on either side.
pub proof fn lemma_cut(text: Seq<char>, at: int)
    requires
        is_boundary(text, at),
    ensures
        0 <= at <= utf8_len(text),
        encode_utf8(before(text, at)) == encode_utf8(text).subrange(0, at),
        encode_utf8(after(text, at)) == encode_utf8(text).subrange(at, utf8_len(text) as int),
        utf8_len(before(text, at)) == at,
        utf8_len(after(text, at)) == utf8_len(text) - at,
        before(text, at) + after(text, at) == text,
{
    let bytes = encode_utf8(text);
    lemma_boundary(text, at);
    valid_utf8_split(bytes, at);
    decode_utf8_split(bytes, at);
    decode_utf8_encode_utf8(bytes.subrange(0, at));
    decode_utf8_encode_utf8(bytes.subrange(at, bytes.len() as int));
    encode_utf8_decode_utf8(text);
}

/// Boundaries of the part in front of a cut are the boundaries of the text there.
pub proof fn lemma_boundary_before(text: Seq<char>, cut: int, at: int)
    requires
        is_boundary(text, cut),
        at <= cut,
    ensures
        is_boundary(before(text, cut), at) <==> is_boundary(text, at),
{
    lemma_cut(text, cut);
    lemma_boundary(text, at);
    lemma_boundary(before(text, cut), at);
    lemma_boundary(text, cut);
}

/// Boundaries of the part behind a cut are the boundaries of the text there.
pub proof fn lemma_boundary_after(text: Seq<char>, cut: int, at: int)
    requires
        is_boundary(text, cut),
        0 <= at,
    ensures
        is_boundary(after(text, cut), at) <==> is_boundary(text, cut + at),
{
    lemma_cut(text, cut);
    lemma_boundary(text, cut + at);
    lemma_boundary(after(text, cut), at);
    lemma_boundary(text, cut);
}

/// A cut-out piece holds the bytes between its two offsets.
pub proof fn lemma_between(text: Seq<char>, from: int, to: int)
    requires
        is_cut(text, from, to),
    ensures
        0 <= from <= to <= utf8_len(text),
        encode_utf8(between(text, from, to)) == encode_utf8(text).subrange(from, to),
        utf8_len(between(text, from, to)) == to - from,
        between(text, from, to) == after(before(text, to), from),
        before(text, from) + between(text, from, to) == before(text, to),
        between(text, from, to) + after(text, to) == after(text, from),
        before(text, from) + between(text, from, to) + after(text, to) == text,
{
    lemma_cut(text, to);
    lemma_boundary(text, from);
    lemma_boundary_before(text, to, from);
    lemma_cut(before(text, to), from);
    let bytes = encode_utf8(text);
    assert(bytes.subrange(0, to).subrange(from, to) =~= bytes.subrange(from, to));
    assert(bytes.subrange(0, to).subrange(0, from) =~= bytes.subrange(0, from));
    lemma_cut(text, from);
    lemma_boundary_after(text, from, to - from);
    lemma_cut(after(text, from), to - from);
    let tail = bytes.subrange(from, bytes.len() as int);
    assert(tail.subrange(0, to - from) =~= bytes.subrange(from, to));
    assert(tail.subrange(to - from, tail.len() as int) =~= bytes.subrange(to, bytes.len() as int));
}

/// A piece cut out in front of a boundary is a piece of the whole text.
pub proof fn lemma_between_before(text: Seq<char>, cut: int, from: int, to: int)
    requires
        is_boundary(text, cut),
        0 <= from <= to <= cut,
    ensures
        between(before(text, cut), from, to) == between(text, from, to),
{
    lemma_cut(text, cut);
    assert(encode_utf8(text).subrange(0, cut).subrange(from, to) =~= encode_utf8(text).subrange(
        from,
        to,
    ));
}

/// A piece cut out behind a boundary is a piece of the whole text.
pub proof fn lemma_between_after(text: Seq<char>, cut: int, from: int, to: int)
    requires
        is_boundary(text, cut),
        0 <= from <= to <= utf8_len(text) - cut,
    ensures
        between(after(text, cut), from, to) == between(text, cut + from, cut + to),
{
    lemma_cut(text, cut);
    let len = utf8_len(text) as int;
    assert(encode_utf8(text).subrange(cut, len).subrange(from, to) =~= encode_utf8(text).subrange(
        cut + from,
        cut + to,
    ));
}

/// Encoding a text piece by piece gives the encoding of the whole.
pub proof fn lemma_encode_concat(left: Seq<char>, right: Seq<char>)
    ensures
        encode_utf8(left + right) == encode_utf8(left) + encode_utf8(right),
        utf8_len(left + right) == utf8_len(left) + utf8_len(right),
    decreases left.len(),
{
    if left.len() == 0 {
        assert(left + right =~= right);
        assert(encode_utf8(left) =~= Seq::<u8>::empty());
        assert(encode_utf8(left) + encode_utf8(right) =~= encode_utf8(right));
    } else {
        lemma_encode_concat(left.drop_first(), right);
        assert((left + right).drop_first() =~= left.drop_first() + right);
        assert((left + right)[0] == left[0]);
        assert(encode_utf8(left + right) =~= encode_utf8(left) + encode_utf8(right));
    }
}

/// The place where two texts are joined is a boundary that parts them again.
pub proof fn lemma_join(left: Seq<char>, right: Seq<char>)
    ensures
        is_boundary(left + right, utf8_len(left) as int),
        before(left + right, utf8_len(left) as int) == left,
        after(left + right, utf8_len(left) as int) == right,
{
    let whole = left + right;
    let at = utf8_len(left) as int;
    lemma_encode_concat(left, right);
    lemma_boundary(whole, at);
    lemma_boundary(right, 0);
    let bytes = encode_utf8(whole);
    assert(bytes.subrange(0, at) =~= encode_utf8(left));
    assert(bytes.subrange(at, bytes.len() as int) =~= encode_utf8(right));
    encode_utf8_decode_utf8(left);
    encode_utf8_decode_utf8(right);
    if utf8_len(right) > 0 {
        assert(bytes[at] == encode_utf8(right)[0]);
    }
}

/// Only the empty text takes up no bytes.
pub proof fn lemma_len_zero(text: Seq<char>)
    ensures
        utf8_len(text) == 0 <==> text.len() == 0,
{
    if text.len() > 0 {
        encode_utf8_first_scalar(text);
    }
}

/// Texts with the same bytes are the same.
proof fn lemma_encode_injective(left: Seq<char>, right: Seq<char>)
    requires
        encode_utf8(left) == encode_utf8(right),
    ensures
        left == right,
{
    encode_utf8_decode_utf8(left);
    encode_utf8_decode_utf8(right);
}

/// Replacing a cut-out piece keeps what stands in front of it and behind it.
pub proof fn lemma_splice(text: Seq<char>, from: int, to: int, insertion: Seq<char>)
    requires
        is_cut(text, from, to),
    ensures
        ({
            let spliced = splice(text, from, to, insertion);
            let end = from + utf8_len(insertion);
            &&& utf8_len(spliced) == utf8_len(text) - (to - from) + utf8_len(insertion)
            &&& is_cut(spliced, from, end)
            &&& before(spliced, from) == before(text, from)
            &&& between(spliced, from, end) == insertion
            &&& after(spliced, end) == after(text, to)
        }),
{
    let head = before(text, from);
    let tail = after(text, to);
    let spliced = splice(text, from, to, insertion);
    let end = from + utf8_len(insertion);
    lemma_cut(text, from);
    lemma_cut(text, to);
    lemma_encode_concat(head, insertion);
    lemma_encode_concat(head + insertion, tail);
    lemma_join(head + insertion, tail);
    assert(spliced =~= head + (insertion + tail));
    lemma_join(head, insertion + tail);
    lemma_between(spliced, from, end);
    lemma_join(head, insertion);
    lemma_boundary_before(spliced, end, from);
    assert(between(spliced, from, end) == after(head + insertion, from));
}

/// `floor_boundary` is a boundary, and no boundary lies between it and the offset.
pub proof fn lemma_floor_boundary(text: Seq<char>, offset: nat)
    ensures
        is_boundary(text, floor_boundary(text, offset)),
        0 <= floor_boundary(text, offset) <= utf8_len(text),
        floor_boundary(text, offset) <= offset,
        forall|at: int|
            floor_boundary(text, offset) < at <= offset ==> !#[trigger] is_boundary(text, at),
    decreases offset,
{
    lemma_boundary(text, 0);
    assert forall|at: int| at > utf8_len(text) implies !#[trigger] is_boundary(text, at) by {
        lemma_boundary(text, at);
    }
    if offset < utf8_len(text) && !is_boundary(text, offset as int) && offset != 0 {
        lemma_floor_boundary(text, (offset - 1) as nat);
    }
}

/// An offset that is a boundary is its own floor.
pub proof fn lemma_floor_of_boundary(text: Seq<char>, offset: nat)
    requires
        is_boundary(text, offset as int),
    ensures
        floor_boundary(text, offset) == offset,
{
    lemma_boundary(text, offset as int);
}

/// Byte length of `text`.
pub fn byte_len(text: &str) -> (len: usize)
    ensures
        len == utf8_len(text@),
{
    text.as_bytes().len()
}

/// The part of `text` in front of `at`.
pub fn head<'a>(text: &'a str, at: usize) -> (part: &'a str)
    requires
        is_boundary(text@, at as int),
    ensures
        part@ == before(text@, at as int),
{
    let (left, right) = text.split_at(at);
    proof {
        lemma_cut(text@, at as int);
        lemma_encode_injective(left@, before(text@, at as int));
    }
    left
}

/// The part of `text` from `at` on.
pub fn tail<'a>(text: &'a str, at: usize) -> (part: &'a str)
    requires
        is_boundary(text@, at as int),
    ensures
        part@ == after(text@, at as int),
{
    let (left, right) = text.split_at(at);
    proof {
        lemma_cut(text@, at as int);
        lemma_encode_injective(right@, after(text@, at as int));
    }
    right
}

/// The part of `text` from `from` up to `to`.
pub fn slice<'a>(text: &'a str, from: usize, to: usize) -> (part: &'a str)
    requires
        is_cut(text@, from as int, to as int),
    ensures
        part@ == between(text@, from as int, to as int),
{
    proof {
        lemma_between(text@, from as int, to as int);
        lemma_boundary_before(text@, to as int, from as int);
    }
    tail(head(text, to), from)
}

/// `text` with the bytes `from..to` replaced by `insertion`.
pub fn spliced(text: &str, from: usize, to: usize, insertion: &str) -> (result: String)
    requires
        is_cut(text@, from as int, to as int),
    ensures
        result@ == splice(text@, from as int, to as int, insertion@),
{
    let mut result = head(text, from).to_owned();
    result.append(insertion);
    result.append(tail(text, to));
    result
}

/// The nearest boundary of `text` at or before `offset`.
pub fn floor(text: &str, offset: usize) -> (at: usize)
    ensures
        at == floor_boundary(text@, offset as nat),
{
    let len: usize = byte_len(text);
    let mut at: usize = if offset < len { offset } else { len };
    proof {
        lemma_boundary(text@, 0);
    }
    while !text.is_char_boundary(at)
        invariant
            at <= utf8_len(text@),
            is_boundary(text@, 0),
            is_boundary(text@, utf8_len(text@) as int),
            floor_boundary(text@, at as nat) == floor_boundary(text@, offset as nat),
        decreases at,
    {
        at = at - 1;
    }
    at
}

/// Whether two strings hold the same text.
pub fn same_text(left: &str, right: &str) -> (same: bool)
    ensures
        same == (left@ == right@),
{
    let a = left.as_bytes();
    let b = right.as_bytes();
    if a.len() != b.len() {
        return false;
    }
    let mut i: usize = 0;
    while i < a.len()
        invariant
            i <= a.len(),
            a@.len() == b@.len(),
            a@ == encode_utf8(left@),
            b@ == encode_utf8(right@),
            forall|j: int| 0 <= j < i ==> a@[j] == b@[j],
        decreases a.len() - i,
    {
        if a[i] != b[i] {
            return false;
        }
        i = i + 1;
    }
    proof {
        assert(a@ =~= b@);
        lemma_encode_injective(left@, right@);
    }
    true
}

} // verus!
