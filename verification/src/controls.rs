//! Keeping control characters out of a text field.

use vstd::prelude::*;
use vstd::string::*;
use vstd::utf8::*;

use crate::utf8;

verus! {

/// `c` is a control code: general category `Cc`.
pub open spec fn is_control_code(c: char) -> bool {
    c <= '\u{1f}' || '\u{7f}' <= c <= '\u{9f}'
}

/// A field takes `c`: no control code, save a line break where it has several lines.
pub open spec fn takes(c: char, multiline: bool) -> bool {
    !is_control_code(c) || (multiline && c == '\n')
}

/// What a field takes of `text`.
pub open spec fn taken(text: Seq<char>, multiline: bool) -> Seq<char> {
    text.filter(|c: char| takes(c, multiline))
}

/// Every `char` of `text` is one that the field takes.
pub open spec fn clean(text: Seq<char>, multiline: bool) -> bool {
    forall|i: int| 0 <= i < text.len() ==> takes(#[trigger] text[i], multiline)
}

/// What a field takes holds nothing that it does not take.
pub proof fn lemma_taken_is_clean(text: Seq<char>, multiline: bool)
    ensures
        clean(taken(text, multiline), multiline),
{
    let pred = |c: char| takes(c, multiline);
    assert forall|i: int| 0 <= i < taken(text, multiline).len() implies takes(
        #[trigger] taken(text, multiline)[i],
        multiline,
    ) by {
        text.lemma_filter_pred(pred, i);
    }
}

/// A field takes all of a text that holds nothing else.
pub proof fn lemma_taken_of_clean(text: Seq<char>, multiline: bool)
    requires
        clean(text, multiline),
    ensures
        taken(text, multiline) == text,
    decreases text.len(),
{
    reveal(Seq::filter);
    if text.len() > 0 {
        lemma_taken_of_clean(text.drop_last(), multiline);
        assert(takes(text.last(), multiline));
        assert(text.drop_last().push(text.last()) =~= text);
    }
}

/// A text with a piece replaced holds only what was in it and in the insertion.
pub proof fn lemma_splice_is_clean(
    text: Seq<char>,
    from: int,
    to: int,
    insertion: Seq<char>,
    multiline: bool,
)
    requires
        utf8::is_cut(text, from, to),
        clean(text, multiline),
        clean(insertion, multiline),
    ensures
        clean(utf8::splice(text, from, to, insertion), multiline),
{
    utf8::lemma_between(text, from, to);
    let front = utf8::before(text, from);
    let back = utf8::after(text, to);
    assert forall|i: int| 0 <= i < front.len() implies takes(#[trigger] front[i], multiline) by {
        assert(text[i] == front[i]);
    }
    let skipped = text.len() - back.len();
    assert forall|i: int| 0 <= i < back.len() implies takes(#[trigger] back[i], multiline) by {
        assert(text[skipped + i] == back[i]);
    }
}

/// Whether `c` is a control code.
pub fn is_control(c: char) -> (answer: bool)
    ensures
        answer == is_control_code(c),
{
    c <= '\u{1f}' || ('\u{7f}' <= c && c <= '\u{9f}')
}

/// Number of bytes that `c` takes up.
fn width(c: char) -> (len: usize)
    ensures
        len == utf8::utf8_len(seq![c]),
{
    proof {
        reveal_with_fuel(encode_utf8, 2);
        assert(seq![c].drop_first() =~= Seq::<char>::empty());
        assert(encode_utf8(seq![c]) =~= encode_scalar(c as u32));
    }
    if c <= '\u{7f}' {
        1
    } else if c <= '\u{7ff}' {
        2
    } else if c <= '\u{ffff}' {
        3
    } else {
        4
    }
}

/// What a field takes of `text`.
pub fn take_text(text: &str, multiline: bool) -> (result: String)
    ensures
        result@ == taken(text@, multiline),
{
    let mut result = String::new();
    let mut rest = text;
    let ghost pred = |c: char| takes(c, multiline);
    proof {
        reveal(Seq::filter);
        assert(text@.skip(0) =~= text@);
        assert(text@.take(0) =~= Seq::empty());
    }
    for c in walk: text.chars()
        invariant
            walk.seq() == text@,
            pred == (|c: char| takes(c, multiline)),
            rest@ == text@.skip(walk.index()),
            result@ == text@.take(walk.index()).filter(pred),
    {
        let ghost i = walk.index();
        proof {
            reveal(Seq::filter);
            assert(rest@ =~= seq![c] + text@.skip(i + 1));
            utf8::lemma_join(seq![c], text@.skip(i + 1));
            assert(text@.take(i + 1).drop_last() =~= text@.take(i));
        }
        let at: usize = width(c);
        let first = utf8::head(rest, at);
        rest = utf8::tail(rest, at);
        if !is_control(c) || (multiline && c == '\n') {
            result.append(first);
            proof {
                assert(text@.take(i).filter(pred).push(c) =~= text@.take(i).filter(pred) + seq![c]);
            }
        }
    }
    proof {
        assert(text@.take(text@.len() as int) =~= text@);
    }
    result
}

/// What a field takes of two texts is what it takes of each, in order; of a single
/// `char` it takes all or nothing.
pub proof fn law_text_is_taken_char_by_char(
    left: Seq<char>,
    right: Seq<char>,
    c: char,
    multiline: bool,
)
    ensures
        taken(left + right, multiline) == taken(left, multiline) + taken(right, multiline),
        taken(seq![c], multiline) == (if ' ' <= c && c <= '\u{7e}' || '\u{a0}' <= c || (multiline
            && c == '\n') {
            seq![c]
        } else {
            Seq::empty()
        }),
        taken(Seq::empty(), multiline) == Seq::<char>::empty(),
    decreases right.len(),
{
    reveal(Seq::filter);
    let pred = |c: char| takes(c, multiline);
    assert(seq![c].drop_last() =~= Seq::<char>::empty());
    assert(taken(seq![c].drop_last(), multiline) =~= Seq::<char>::empty());
    assert(seq![c].last() == c);
    if takes(c, multiline) {
        assert(taken(seq![c], multiline) =~= seq![c]);
    }
    if right.len() == 0 {
        assert(left + right =~= left);
        assert(taken(left, multiline) + taken(right, multiline) =~= taken(left, multiline));
    } else {
        law_text_is_taken_char_by_char(left, right.drop_last(), c, multiline);
        assert((left + right).drop_last() =~= left + right.drop_last());
        assert(taken(left + right, multiline) =~= taken(left, multiline) + taken(right, multiline));
    }
}

} // verus!
