//! A text broken into the lines it is shown on.
//!
//! Where a paragraph has to be broken to fit the width of the field is measured by
//! the host; here those places become visual lines. A paragraph ends at a line
//! break or at the end of the text, so a trailing line break yields the empty line
//! after it, the row the caret sits on when it has just been typed.

use std::ops::Range;

use vstd::prelude::*;
use vstd::string::*;
use vstd::utf8::*;

use crate::utf8;

verus! {

/// One soft-wrapped display line: a byte range of the buffer, plus whether it
/// ended because the text wrapped rather than because of a line break. At a soft
/// break the caret belongs to the start of the following line, while at a hard
/// break both ends are real places to be.
#[derive(Debug, PartialEq, Eq)]
pub struct VisualLine {
    pub range: Range<usize>,
    pub soft_wrapped: bool,
}

impl Clone for VisualLine {
    fn clone(&self) -> (line: VisualLine)
        ensures
            line == *self,
    {
        VisualLine {
            range: Range { start: self.range.start, end: self.range.end },
            soft_wrapped: self.soft_wrapped,
        }
    }
}

/// What a `VisualLine` stands for.
pub struct LineSpan {
    pub start: int,
    pub end: int,
    pub soft: bool,
}

impl View for VisualLine {
    type V = LineSpan;

    open spec fn view(&self) -> LineSpan {
        LineSpan {
            start: self.range.start as int,
            end: self.range.end as int,
            soft: self.soft_wrapped,
        }
    }
}

/// The lines that `lines` stands for.
pub open spec fn spans(lines: Seq<VisualLine>) -> Seq<LineSpan> {
    Seq::new(lines.len(), |i: int| lines[i]@)
}

/// The breaks that `breaks` stands for, one list for each paragraph.
pub open spec fn break_offsets(breaks: Seq<Vec<usize>>) -> Seq<Seq<usize>> {
    Seq::new(breaks.len(), |p: int| breaks[p]@)
}

/// The byte that encodes a line break.
pub open spec fn is_line_break(byte: u8) -> bool {
    byte == 0x0a
}

/// Where the paragraph that starts at `start` ends.
pub open spec fn paragraph_end(bytes: Seq<u8>, start: int) -> int
    decreases bytes.len() - start,
{
    if start >= bytes.len() || is_line_break(bytes[start]) {
        start
    } else {
        paragraph_end(bytes, start + 1)
    }
}

/// The ends of the paragraphs from `start` on.
pub open spec fn paragraphs_from(bytes: Seq<u8>, start: int) -> Seq<(int, int)>
    decreases bytes.len() - start,
    when 0 <= start
    via paragraphs_from_decreases
{
    let end = paragraph_end(bytes, start);
    if end >= bytes.len() {
        seq![(start, end)]
    } else {
        seq![(start, end)] + paragraphs_from(bytes, end + 1)
    }
}

#[via_fn]
proof fn paragraphs_from_decreases(bytes: Seq<u8>, start: int) {
    lemma_paragraph_end(bytes, start);
}

/// The paragraphs of `text`.
pub open spec fn paragraphs_of(text: Seq<char>) -> Seq<(int, int)> {
    paragraphs_from(encode_utf8(text), 0)
}

/// The lines of the paragraph at `base`, from `cut` to its `end`: a break makes a
/// line of its own when it lies behind the last cut.
pub open spec fn paragraph_lines(cut: int, base: int, breaks: Seq<usize>, end: int) -> Seq<LineSpan>
    decreases breaks.len(),
{
    if breaks.len() == 0 {
        seq![LineSpan { start: cut, end, soft: false }]
    } else if base + breaks[0] > cut {
        seq![LineSpan { start: cut, end: base + breaks[0], soft: true }] + paragraph_lines(
            base + breaks[0],
            base,
            breaks.drop_first(),
            end,
        )
    } else {
        paragraph_lines(cut, base, breaks.drop_first(), end)
    }
}

/// The lines of the paragraphs, one after the other.
pub open spec fn lines_of(paragraphs: Seq<(int, int)>, breaks: Seq<Seq<usize>>) -> Seq<LineSpan>
    decreases paragraphs.len(),
{
    if paragraphs.len() == 0 {
        Seq::empty()
    } else {
        lines_of(paragraphs.drop_last(), breaks) + paragraph_lines(
            paragraphs.last().0,
            paragraphs.last().0,
            breaks[paragraphs.len() - 1],
            paragraphs.last().1,
        )
    }
}

/// The lines of `text` when its paragraphs are broken at `breaks`.
pub open spec fn wrapped(text: Seq<char>, breaks: Seq<Seq<usize>>) -> Seq<LineSpan> {
    lines_of(paragraphs_of(text), breaks)
}

/// A break of the paragraph `start..end` lies inside it and splits no `char`.
pub open spec fn is_break(text: Seq<char>, start: int, end: int, at: usize) -> bool {
    start + at <= end && utf8::is_boundary(text, start + at)
}

/// There is a list of breaks for each paragraph of `text`, and all of them lie
/// inside their paragraph and split no `char`.
pub open spec fn breaks_fit(text: Seq<char>, breaks: Seq<Seq<usize>>) -> bool {
    &&& breaks.len() == paragraphs_of(text).len()
    &&& forall|p: int, k: int|
        0 <= p < breaks.len() && 0 <= k < breaks[p].len() ==> is_break(
            text,
            paragraphs_of(text)[p].0,
            paragraphs_of(text)[p].1,
            #[trigger] breaks[p][k],
        )
}

/// Line `right` comes right behind line `left`: at the same place where `left` was
/// wrapped, else behind the line break that ends it.
pub open spec fn follows(text: Seq<char>, left: LineSpan, right: LineSpan) -> bool {
    if left.soft {
        left.start < left.end && right.start == left.end
    } else {
        right.start == left.end + 1 && is_line_break(encode_utf8(text)[left.end])
    }
}

/// `line` is cut out of `text` and holds no line break.
pub open spec fn is_line(text: Seq<char>, line: LineSpan) -> bool {
    &&& utf8::is_cut(text, line.start, line.end)
    &&& forall|i: int|
        line.start <= i < line.end ==> !is_line_break(#[trigger] encode_utf8(text)[i])
}

/// The lines show `from..to` of `text`, every byte of it but the line breaks once,
/// in order, and the last of them is not wrapped.
pub open spec fn show(text: Seq<char>, lines: Seq<LineSpan>, from: int, to: int) -> bool {
    &&& lines.len() > 0
    &&& lines[0].start == from
    &&& lines.last().end == to
    &&& !lines.last().soft
    &&& forall|i: int| 0 <= i < lines.len() ==> is_line(text, #[trigger] lines[i])
    &&& forall|i: int, j: int|
        0 <= i && j == i + 1 && j < lines.len() ==> follows(
            text,
            #[trigger] lines[i],
            #[trigger] lines[j],
        )
}

/// The lines show all of `text`.
pub open spec fn lines_show(text: Seq<char>, lines: Seq<LineSpan>) -> bool {
    show(text, lines, 0, utf8::utf8_len(text) as int)
}

/// A paragraph ends at the first line break from its start on.
proof fn lemma_paragraph_end(bytes: Seq<u8>, start: int)
    requires
        0 <= start,
    ensures
        start <= paragraph_end(bytes, start),
        start <= bytes.len() ==> paragraph_end(bytes, start) <= bytes.len(),
        paragraph_end(bytes, start) < bytes.len() ==> is_line_break(
            bytes[paragraph_end(bytes, start)],
        ),
        forall|i: int|
            start <= i < paragraph_end(bytes, start) ==> !is_line_break(#[trigger] bytes[i]),
    decreases bytes.len() - start,
{
    if start < bytes.len() && !is_line_break(bytes[start]) {
        lemma_paragraph_end(bytes, start + 1);
    }
}

/// The place of a line break, and the place behind it, are boundaries.
proof fn lemma_line_break_is_boundary(text: Seq<char>, at: int)
    requires
        0 <= at < utf8::utf8_len(text),
        is_line_break(encode_utf8(text)[at]),
    ensures
        utf8::is_boundary(text, at),
        utf8::is_boundary(text, at + 1),
{
    let bytes = encode_utf8(text);
    utf8::lemma_boundary(text, at);
    let byte = bytes[at];
    assert(byte == 0x0a ==> !is_continuation_byte(byte)) by (bit_vector);
    utf8::lemma_boundary(text, at + 1);
    let rest = utf8::after(text, at);
    utf8::lemma_cut(text, at);
    utf8::lemma_boundary(rest, 0);
    assert(encode_utf8(rest)[0] == byte);
    assert(byte == 0x0a ==> is_leading_byte_width_1(byte)) by (bit_vector);
    reveal_with_fuel(is_char_boundary, 2);
    assert(utf8::is_boundary(rest, 1));
    utf8::lemma_boundary_after(text, at, 1);
}

/// Lines that end at a line break, and the lines behind it, together.
proof fn lemma_show_join(
    text: Seq<char>,
    left: Seq<LineSpan>,
    right: Seq<LineSpan>,
    from: int,
    middle: int,
    to: int,
)
    requires
        show(text, left, from, middle),
        is_line_break(encode_utf8(text)[middle]),
        show(text, right, middle + 1, to),
    ensures
        show(text, left + right, from, to),
{
    let lines = left + right;
    assert forall|i: int| 0 <= i < lines.len() implies is_line(text, #[trigger] lines[i]) by {
        if i < left.len() {
            assert(lines[i] == left[i]);
        } else {
            assert(lines[i] == right[i - left.len()]);
        }
    }
    assert forall|i: int, j: int| 0 <= i && j == i + 1 && j < lines.len() implies follows(
        text,
        #[trigger] lines[i],
        #[trigger] lines[j],
    ) by {
        if j < left.len() {
            assert(lines[i] == left[i] && lines[j] == left[j]);
        } else if i >= left.len() {
            assert(lines[i] == right[i - left.len()] && lines[j] == right[j - left.len()]);
        }
    }
}

/// The lines of a paragraph show it.
proof fn lemma_paragraph_lines_show(
    text: Seq<char>,
    cut: int,
    base: int,
    breaks: Seq<usize>,
    end: int,
)
    requires
        utf8::is_cut(text, cut, end),
        forall|i: int| cut <= i < end ==> !is_line_break(#[trigger] encode_utf8(text)[i]),
        forall|k: int| 0 <= k < breaks.len() ==> is_break(text, base, end, #[trigger] breaks[k]),
    ensures
        show(text, paragraph_lines(cut, base, breaks, end), cut, end),
    decreases breaks.len(),
{
    if breaks.len() > 0 {
        let rest = breaks.drop_first();
        assert forall|k: int| 0 <= k < rest.len() implies is_break(
            text,
            base,
            end,
            #[trigger] rest[k],
        ) by {
            assert(rest[k] == breaks[k + 1]);
        }
        assert(is_break(text, base, end, breaks[0]));
        let at = base + breaks[0];
        if at > cut {
            lemma_paragraph_lines_show(text, at, base, rest, end);
            let behind = paragraph_lines(at, base, rest, end);
            let first = LineSpan { start: cut, end: at, soft: true };
            let lines = seq![first] + behind;
            assert forall|i: int| 0 <= i < lines.len() implies is_line(text, #[trigger] lines[i]) by {
                if i > 0 {
                    assert(lines[i] == behind[i - 1]);
                }
            }
            assert forall|i: int, j: int| 0 <= i && j == i + 1 && j < lines.len() implies follows(
                text,
                #[trigger] lines[i],
                #[trigger] lines[j],
            ) by {
                assert(lines[j] == behind[j - 1]);
                if i > 0 {
                    assert(lines[i] == behind[i - 1]);
                }
            }
        } else {
            lemma_paragraph_lines_show(text, cut, base, rest, end);
        }
    }
}

/// Each paragraph is cut out of the text, holds no line break, and starts behind
/// the line break that ends the one in front of it.
proof fn lemma_paragraphs(text: Seq<char>, start: int)
    requires
        utf8::is_boundary(text, start),
    ensures
        ({
            let bytes = encode_utf8(text);
            let found = paragraphs_from(bytes, start);
            &&& found.len() > 0
            &&& found[0].0 == start
            &&& found.last().1 == bytes.len()
            &&& forall|p: int|
                0 <= p < found.len() ==> utf8::is_cut(text, (#[trigger] found[p]).0, found[p].1)
            &&& forall|p: int, i: int|
                0 <= p < found.len() && (#[trigger] found[p]).0 <= i < found[p].1
                    ==> !is_line_break(#[trigger] bytes[i])
            &&& forall|p: int, q: int|
                0 <= p && q == p + 1 && q < found.len() ==> (#[trigger] found[q]).0 == (
                #[trigger] found[p]).1 + 1 && is_line_break(bytes[found[p].1]) && found[p].1
                    < bytes.len()
        }),
    decreases utf8::utf8_len(text) - start,
{
    let bytes = encode_utf8(text);
    let found = paragraphs_from(bytes, start);
    utf8::lemma_boundary(text, start);
    lemma_paragraph_end(bytes, start);
    let end = paragraph_end(bytes, start);
    if end < bytes.len() {
        lemma_line_break_is_boundary(text, end);
        lemma_paragraphs(text, end + 1);
        let rest = paragraphs_from(bytes, end + 1);
        assert(found == seq![(start, end)] + rest);
        assert forall|p: int| 0 < p < found.len() implies #[trigger] found[p] == rest[p - 1] by {}
    } else {
        utf8::lemma_boundary(text, end);
    }
}

/// The lines of the first paragraphs show the text up to the end of the last of
/// them.
proof fn lemma_lines_of_show(text: Seq<char>, breaks: Seq<Seq<usize>>, n: int)
    requires
        breaks_fit(text, breaks),
        0 < n <= paragraphs_of(text).len(),
    ensures
        show(
            text,
            lines_of(paragraphs_of(text).take(n), breaks),
            0,
            paragraphs_of(text)[n - 1].1,
        ),
    decreases n,
{
    let paragraphs = paragraphs_of(text);
    utf8::lemma_boundary(text, 0);
    lemma_paragraphs(text, 0);
    let p = n - 1;
    let (start, end) = paragraphs[p];
    assert forall|k: int| 0 <= k < breaks[p].len() implies is_break(
        text,
        start,
        end,
        #[trigger] breaks[p][k],
    ) by {}
    lemma_paragraph_lines_show(text, start, start, breaks[p], end);
    let last = paragraph_lines(start, start, breaks[p], end);
    assert(paragraphs.take(n).drop_last() =~= paragraphs.take(p));
    if p == 0 {
        assert(paragraphs.take(p) =~= Seq::empty());
        assert(lines_of(paragraphs.take(p), breaks) =~= Seq::empty());
        assert(paragraphs.take(n).last() == paragraphs[p]);
        assert(lines_of(paragraphs.take(n), breaks) =~= last);
    } else {
        lemma_lines_of_show(text, breaks, p);
        assert(paragraphs[p].0 == paragraphs[p - 1].1 + 1);
        lemma_show_join(
            text,
            lines_of(paragraphs.take(p), breaks),
            last,
            0,
            paragraphs[p - 1].1,
            end,
        );
    }
}

/// A wrapped text is shown whole: its lines hold every byte but the line breaks
/// once, in order, each hard break is one, and there is always a line.
pub proof fn law_wrapped_lines_show_the_text(text: Seq<char>, breaks: Seq<Seq<usize>>)
    requires
        breaks_fit(text, breaks),
    ensures
        lines_show(text, wrapped(text, breaks)),
        wrapped(text, breaks).len() >= paragraphs_of(text).len(),
{
    utf8::lemma_boundary(text, 0);
    lemma_paragraphs(text, 0);
    let paragraphs = paragraphs_of(text);
    lemma_lines_of_show(text, breaks, paragraphs.len() as int);
    assert(paragraphs.take(paragraphs.len() as int) =~= paragraphs);
    lemma_enough_lines(paragraphs, breaks);
}

proof fn lemma_enough_lines(paragraphs: Seq<(int, int)>, breaks: Seq<Seq<usize>>)
    ensures
        lines_of(paragraphs, breaks).len() >= paragraphs.len(),
    decreases paragraphs.len(),
{
    if paragraphs.len() > 0 {
        lemma_enough_lines(paragraphs.drop_last(), breaks);
        lemma_a_line(
            paragraphs.last().0,
            paragraphs.last().0,
            breaks[paragraphs.len() - 1],
            paragraphs.last().1,
        );
    }
}

proof fn lemma_a_line(cut: int, base: int, breaks: Seq<usize>, end: int)
    ensures
        paragraph_lines(cut, base, breaks, end).len() >= 1,
    decreases breaks.len(),
{
    if breaks.len() > 0 {
        if base + breaks[0] > cut {
            lemma_a_line(base + breaks[0], base, breaks.drop_first(), end);
        } else {
            lemma_a_line(cut, base, breaks.drop_first(), end);
        }
    }
}

/// Lines that show a text start one behind the other.
pub proof fn lemma_lines_ascend(text: Seq<char>, lines: Seq<LineSpan>, from: int, to: int, i: int, j: int)
    requires
        show(text, lines, from, to),
        0 <= i < j < lines.len(),
    ensures
        lines[i].start < lines[j].start,
        lines[i].end <= lines[j].start,
    decreases j - i,
{
    assert(follows(text, lines[j - 1], lines[j]));
    assert(is_line(text, lines[j - 1]));
    if i < j - 1 {
        lemma_lines_ascend(text, lines, from, to, i, j - 1);
    }
}

/// The two ends of each range.
pub open spec fn range_ends(ranges: Seq<Range<usize>>) -> Seq<(int, int)> {
    Seq::new(ranges.len(), |i: int| (ranges[i].start as int, ranges[i].end as int))
}

/// The byte ranges of the paragraphs of `text`, without the line breaks between
/// them. There is always at least one.
pub fn paragraphs(text: &str) -> (ranges: Vec<Range<usize>>)
    ensures
        range_ends(ranges@) == paragraphs_of(text@),
        ranges.len() > 0,
{
    let bytes = text.as_bytes();
    let len: usize = bytes.len();
    let mut ranges: Vec<Range<usize>> = Vec::new();
    let mut start: usize = 0;
    let mut i: usize = 0;
    proof {
        assert(range_ends(ranges@) + paragraphs_from(bytes@, 0) =~= paragraphs_from(bytes@, 0));
    }
    while i < len
        invariant
            len == bytes@.len(),
            bytes@ == encode_utf8(text@),
            start <= i <= len,
            paragraph_end(bytes@, start as int) == paragraph_end(bytes@, i as int),
            paragraphs_of(text@) == range_ends(ranges@) + paragraphs_from(bytes@, start as int),
        decreases len - i,
    {
        if bytes[i] == 0x0a {
            let ghost found = range_ends(ranges@);
            let ghost rest = paragraphs_from(bytes@, i + 1);
            ranges.push(Range { start, end: i });
            proof {
                assert(range_ends(ranges@) =~= found + seq![(start as int, i as int)]);
                assert(found + (seq![(start as int, i as int)] + rest) =~= range_ends(ranges@)
                    + rest);
            }
            start = i + 1;
        }
        i = i + 1;
    }
    let ghost found = range_ends(ranges@);
    ranges.push(Range { start, end: len });
    proof {
        assert(range_ends(ranges@) =~= found + seq![(start as int, len as int)]);
    }
    ranges
}

/// Whether `breaks` has a list of breaks for each paragraph of `text`, all of them
/// inside their paragraph and between two `char`s.
pub fn fits(text: &str, breaks: &Vec<Vec<usize>>) -> (answer: bool)
    ensures
        answer == breaks_fit(text@, break_offsets(breaks@)),
{
    let ranges = paragraphs(text);
    let ghost found = paragraphs_of(text@);
    let ghost offsets = break_offsets(breaks@);
    if breaks.len() != ranges.len() {
        return false;
    }
    let mut p: usize = 0;
    while p < breaks.len()
        invariant
            p <= breaks.len(),
            breaks.len() == ranges.len(),
            found == paragraphs_of(text@),
            found == range_ends(ranges@),
            offsets == break_offsets(breaks@),
            forall|q: int, k: int|
                0 <= q < p && 0 <= k < offsets[q].len() ==> is_break(
                    text@,
                    found[q].0,
                    found[q].1,
                    #[trigger] offsets[q][k],
                ),
        decreases breaks.len() - p,
    {
        let start: usize = ranges[p].start;
        let end: usize = ranges[p].end;
        proof {
            assert(found[p as int] == (start as int, end as int));
            utf8::lemma_boundary(text@, 0);
            lemma_paragraphs(text@, 0);
        }
        let list = &breaks[p];
        let mut k: usize = 0;
        while k < list.len()
            invariant
                k <= list.len(),
                p < breaks.len(),
                breaks.len() == ranges.len(),
                found == paragraphs_of(text@),
                found == range_ends(ranges@),
                offsets == break_offsets(breaks@),
                list@ == offsets[p as int],
                found[p as int] == (start as int, end as int),
                start <= end,
                forall|j: int|
                    0 <= j < k ==> is_break(
                        text@,
                        start as int,
                        end as int,
                        #[trigger] offsets[p as int][j],
                    ),
            decreases list.len() - k,
        {
            let at: usize = list[k];
            if at > end - start || !text.is_char_boundary(start + at) {
                assert(!is_break(text@, start as int, end as int, offsets[p as int][k as int]));
                return false;
            }
            k = k + 1;
        }
        p = p + 1;
    }
    true
}

/// Breaks `text` into visual lines: each paragraph at its `breaks`, keeping hard
/// line breaks as boundaries of their own.
pub fn wrap(text: &str, breaks: &Vec<Vec<usize>>) -> (lines: Vec<VisualLine>)
    requires
        breaks_fit(text@, break_offsets(breaks@)),
    ensures
        spans(lines@) == wrapped(text@, break_offsets(breaks@)),
        lines_show(text@, spans(lines@)),
{
    let ranges = paragraphs(text);
    let ghost found = paragraphs_of(text@);
    let ghost offsets = break_offsets(breaks@);
    let mut lines: Vec<VisualLine> = Vec::new();
    let mut p: usize = 0;
    proof {
        assert(found.take(0) =~= Seq::empty());
        assert(spans(lines@) =~= Seq::empty());
        law_wrapped_lines_show_the_text(text@, offsets);
        utf8::lemma_boundary(text@, 0);
        lemma_paragraphs(text@, 0);
    }
    while p < ranges.len()
        invariant
            p <= ranges.len(),
            breaks.len() == ranges.len(),
            found == paragraphs_of(text@),
            found == range_ends(ranges@),
            offsets == break_offsets(breaks@),
            breaks_fit(text@, offsets),
            forall|q: int| 0 <= q < found.len() ==> (#[trigger] found[q]).0 <= found[q].1,
            spans(lines@) == lines_of(found.take(p as int), offsets),
        decreases ranges.len() - p,
    {
        let start: usize = ranges[p].start;
        let end: usize = ranges[p].end;
        assert(found[p as int] == (start as int, end as int));
        let list = &breaks[p];
        let ghost list_model = offsets[p as int];
        let ghost before = spans(lines@);
        let mut cut: usize = start;
        let mut k: usize = 0;
        proof {
            assert(list_model.skip(0) =~= list_model);
        }
        while k < list.len()
            invariant
                k <= list.len(),
                start <= cut <= end,
                list@ == list_model,
                forall|j: int|
                    0 <= j < list_model.len() ==> is_break(
                        text@,
                        start as int,
                        end as int,
                        #[trigger] list_model[j],
                    ),
                before + paragraph_lines(start as int, start as int, list_model, end as int)
                    == spans(lines@) + paragraph_lines(
                    cut as int,
                    start as int,
                    list_model.skip(k as int),
                    end as int,
                ),
            decreases list.len() - k,
        {
            let ghost shown = spans(lines@);
            let ghost rest = list_model.skip(k as int);
            let ghost line = LineSpan { start: cut as int, end: start + rest[0], soft: true };
            proof {
                assert(rest[0] == list_model[k as int]);
                assert(rest.drop_first() =~= list_model.skip(k + 1));
            }
            let at: usize = start + list[k];
            if at > cut {
                lines.push(VisualLine { range: Range { start: cut, end: at }, soft_wrapped: true });
                proof {
                    assert(spans(lines@) =~= shown + seq![line]);
                    let behind = paragraph_lines(
                        at as int,
                        start as int,
                        rest.drop_first(),
                        end as int,
                    );
                    assert(shown + (seq![line] + behind) =~= (shown + seq![line]) + behind);
                }
                cut = at;
            }
            k = k + 1;
        }
        let ghost shown = spans(lines@);
        let ghost last = LineSpan { start: cut as int, end: end as int, soft: false };
        lines.push(VisualLine { range: Range { start: cut, end }, soft_wrapped: false });
        proof {
            assert(spans(lines@) =~= shown + seq![last]);
            assert(found.take(p + 1).drop_last() =~= found.take(p as int));
            assert(found.take(p + 1).last() == found[p as int]);
        }
        p = p + 1;
    }
    proof {
        assert(found.take(found.len() as int) =~= found);
    }
    lines
}

/// A line break is the byte of the `char` of that name, and no other byte is one.
pub proof fn law_line_break_is_the_newline(byte: u8)
    ensures
        is_line_break(byte) <==> encode_utf8(seq!['\n']) == seq![byte],
{
    reveal_with_fuel(encode_utf8, 2);
    assert(seq!['\n'].drop_first() =~= Seq::<char>::empty());
    assert(encode_utf8(seq!['\n']) =~= encode_scalar('\n' as u32));
    assert(encode_scalar('\n' as u32) =~= seq![0x0au8]) by {
        assert(0x0au32 & 0x7f == 0x0a) by (bit_vector);
    }
    if encode_utf8(seq!['\n']) == seq![byte] {
        assert(seq![byte][0] == seq![0x0au8][0]);
    }
}

/// Paragraphs start at the start of the text, end at its end, and are parted by the
/// line breaks: every line break is one between two paragraphs.
pub proof fn law_paragraphs_are_parted_by_line_breaks(text: Seq<char>)
    ensures
        ({
            let bytes = encode_utf8(text);
            let found = paragraphs_of(text);
            &&& found.len() > 0
            &&& found[0].0 == 0
            &&& found.last().1 == bytes.len()
            &&& forall|p: int|
                0 <= p < found.len() ==> utf8::is_cut(text, (#[trigger] found[p]).0, found[p].1)
            &&& forall|p: int, i: int|
                0 <= p < found.len() && (#[trigger] found[p]).0 <= i < found[p].1 ==> (
                #[trigger] bytes[i]) != 0x0a
            &&& forall|p: int, q: int|
                0 <= p && q == p + 1 && q < found.len() ==> (#[trigger] found[q]).0 == (
                #[trigger] found[p]).1 + 1 && bytes[found[p].1] == 0x0a
        }),
{
    utf8::lemma_boundary(text, 0);
    lemma_paragraphs(text, 0);
    let bytes = encode_utf8(text);
    let found = paragraphs_of(text);
    assert forall|p: int, i: int|
        0 <= p < found.len() && (#[trigger] found[p]).0 <= i < found[p].1 implies (
    #[trigger] bytes[i]) != 0x0a by {
        assert(!is_line_break(bytes[i]));
    }
}

/// `breaks[k]` lies behind the start of the paragraph and behind all breaks in front
/// of it in the list.
pub open spec fn advances(breaks: Seq<usize>, k: int) -> bool {
    &&& 0 <= k < breaks.len()
    &&& breaks[k] > 0
    &&& forall|j: int| 0 <= j < k ==> (#[trigger] breaks[j]) < breaks[k]
}

/// A soft line ends at `at`.
pub open spec fn wraps_at(lines: Seq<LineSpan>, at: int) -> bool {
    exists|i: int| 0 <= i < lines.len() && (#[trigger] lines[i]).soft && lines[i].end == at
}

proof fn lemma_wraps_in_two(left: Seq<LineSpan>, right: Seq<LineSpan>, at: int)
    ensures
        wraps_at(left + right, at) <==> wraps_at(left, at) || wraps_at(right, at),
{
    let lines = left + right;
    if wraps_at(left, at) {
        let i = choose|i: int|
            0 <= i < left.len() && (#[trigger] left[i]).soft && left[i].end == at;
        assert(lines[i] == left[i]);
    }
    if wraps_at(right, at) {
        let i = choose|i: int|
            0 <= i < right.len() && (#[trigger] right[i]).soft && right[i].end == at;
        assert(lines[left.len() + i] == right[i]);
    }
    if wraps_at(lines, at) {
        let i = choose|i: int|
            0 <= i < lines.len() && (#[trigger] lines[i]).soft && lines[i].end == at;
        if i < left.len() {
            assert(left[i] == lines[i]);
        } else {
            assert(right[i - left.len()] == lines[i]);
        }
    }
}

proof fn lemma_paragraph_wraps(cut: int, base: int, breaks: Seq<usize>, end: int, at: int)
    ensures
        wraps_at(paragraph_lines(cut, base, breaks, end), at) <==> exists|k: int|
            0 <= k < breaks.len() && base + (#[trigger] breaks[k]) == at && at > cut && forall|
                j: int,
            | 0 <= j < k ==> base + (#[trigger] breaks[j]) < at,
    decreases breaks.len(),
{
    let lines = paragraph_lines(cut, base, breaks, end);
    if breaks.len() > 0 {
        let rest = breaks.drop_first();
        let first = base + breaks[0];
        let next = if first > cut {
            first
        } else {
            cut
        };
        lemma_paragraph_wraps(next, base, rest, end, at);
        let behind = paragraph_lines(next, base, rest, end);
        if first > cut {
            let line = LineSpan { start: cut, end: first, soft: true };
            lemma_wraps_in_two(seq![line], behind, at);
            if first == at {
                assert(seq![line][0].soft);
            }
        }
        if wraps_at(behind, at) {
            let k = choose|k: int|
                0 <= k < rest.len() && base + (#[trigger] rest[k]) == at && at > next && forall|
                    j: int,
                | 0 <= j < k ==> base + (#[trigger] rest[j]) < at;
            assert(breaks[k + 1] == rest[k]);
            assert forall|j: int| 0 <= j < k + 1 implies base + (#[trigger] breaks[j]) < at by {
                if j > 0 {
                    assert(breaks[j] == rest[j - 1]);
                }
            }
        }
        if exists|k: int|
            0 <= k < breaks.len() && base + (#[trigger] breaks[k]) == at && at > cut && forall|
                j: int,
            | 0 <= j < k ==> base + (#[trigger] breaks[j]) < at {
            let k = choose|k: int|
                0 <= k < breaks.len() && base + (#[trigger] breaks[k]) == at && at > cut && forall|
                    j: int,
                | 0 <= j < k ==> base + (#[trigger] breaks[j]) < at;
            if k > 0 {
                assert(breaks[0] + base < at);
                assert(rest[k - 1] == breaks[k]);
                assert forall|j: int| 0 <= j < k - 1 implies base + (#[trigger] rest[j]) < at by {
                    assert(rest[j] == breaks[j + 1]);
                }
                assert(wraps_at(behind, at));
            }
        }
    } else {
        assert(!wraps_at(lines, at));
    }
}

proof fn lemma_paragraphs_wrap(paragraphs: Seq<(int, int)>, breaks: Seq<Seq<usize>>, at: int)
    ensures
        wraps_at(lines_of(paragraphs, breaks), at) <==> exists|p: int, k: int|
            0 <= p < paragraphs.len() && #[trigger] advances(breaks[p], k) && at
                == paragraphs[p].0 + breaks[p][k],
    decreases paragraphs.len(),
{
    if paragraphs.len() > 0 {
        let front = paragraphs.drop_last();
        let last = paragraphs.len() - 1;
        let base = paragraphs[last].0;
        let list = breaks[last];
        let end = paragraphs[last].1;
        lemma_paragraphs_wrap(front, breaks, at);
        lemma_paragraph_wraps(base, base, list, end, at);
        lemma_wraps_in_two(
            lines_of(front, breaks),
            paragraph_lines(base, base, list, end),
            at,
        );
        assert forall|p: int| 0 <= p < last implies #[trigger] front[p] == paragraphs[p] by {}
        if exists|k: int| #[trigger] advances(list, k) && at == base + list[k] {
            let k = choose|k: int| #[trigger] advances(list, k) && at == base + list[k];
            assert(advances(breaks[last], k));
            assert(base + list[k] == at && at > base);
            assert(wraps_at(paragraph_lines(base, base, list, end), at));
        }
        if wraps_at(paragraph_lines(base, base, list, end), at) {
            let k = choose|k: int|
                0 <= k < list.len() && base + (#[trigger] list[k]) == at && at > base && forall|
                    j: int,
                | 0 <= j < k ==> base + (#[trigger] list[j]) < at;
            assert(advances(breaks[last], k));
        }
        if wraps_at(lines_of(front, breaks), at) {
            let (p, k) = choose|p: int, k: int|
                0 <= p < front.len() && #[trigger] advances(breaks[p], k) && at == front[p].0
                    + breaks[p][k];
            assert(paragraphs[p] == front[p]);
        }
        if exists|p: int, k: int|
            0 <= p < paragraphs.len() && #[trigger] advances(breaks[p], k) && at
                == paragraphs[p].0 + breaks[p][k] {
            let (p, k) = choose|p: int, k: int|
                0 <= p < paragraphs.len() && #[trigger] advances(breaks[p], k) && at
                    == paragraphs[p].0 + breaks[p][k];
            if p < last {
                assert(front[p] == paragraphs[p]);
            } else {
                assert(advances(list, k));
            }
        }
    } else {
        assert(!wraps_at(lines_of(paragraphs, breaks), at));
    }
}

/// A text wraps exactly at the breaks of its paragraphs that advance: every soft line
/// ends at one, and every one ends a soft line.
pub proof fn law_text_wraps_at_its_breaks(text: Seq<char>, breaks: Seq<Seq<usize>>, at: int)
    requires
        breaks_fit(text, breaks),
    ensures
        (exists|i: int|
            0 <= i < wrapped(text, breaks).len() && (#[trigger] wrapped(text, breaks)[i]).soft
                && wrapped(text, breaks)[i].end == at) <==> exists|p: int, k: int|
            0 <= p < breaks.len() && #[trigger] advances(breaks[p], k) && at == paragraphs_of(
                text,
            )[p].0 + breaks[p][k],
{
    lemma_paragraphs_wrap(paragraphs_of(text), breaks, at);
    let lines = wrapped(text, breaks);
    assert(wraps_at(lines, at) <==> exists|i: int|
        0 <= i < lines.len() && (#[trigger] lines[i]).soft && lines[i].end == at);
}

/// Breaks fit a text exactly when every paragraph has a list of them and each of them
/// cuts its paragraph in two, either part of which may be empty.
pub proof fn law_breaks_that_fit_cut_their_paragraphs(text: Seq<char>, breaks: Seq<Seq<usize>>)
    ensures
        breaks_fit(text, breaks) <==> breaks.len() == paragraphs_of(text).len() && forall|
            p: int,
            k: int,
        |
            0 <= p < breaks.len() && 0 <= k < breaks[p].len() ==> ({
                let (start, end) = paragraphs_of(text)[p];
                let at = start + #[trigger] breaks[p][k];
                utf8::is_cut(text, start, at) && utf8::is_cut(text, at, end)
            }),
{
    let found = paragraphs_of(text);
    law_paragraphs_are_parted_by_line_breaks(text);
    if breaks.len() == found.len() {
        assert forall|p: int, k: int|
            0 <= p < breaks.len() && 0 <= k < breaks[p].len() implies (is_break(
            text,
            found[p].0,
            found[p].1,
            #[trigger] breaks[p][k],
        ) <==> utf8::is_cut(text, found[p].0, found[p].0 + breaks[p][k]) && utf8::is_cut(
            text,
            found[p].0 + breaks[p][k],
            found[p].1,
        )) by {
            assert(utf8::is_cut(text, found[p].0, found[p].1));
        }
    }
}

} // verus!
