//! Grapheme clusters and words of a text.
//!
//! Where one cluster or word ends and the next begins is decided by the
//! `unicode_segmentation` crate. Walking a text from its front and walking it from
//! its back are two different computations there, so each has a name of its own
//! here.

use vstd::prelude::*;
use vstd::string::*;

use unicode_segmentation::UnicodeSegmentation;

use crate::utf8;

verus! {

/// A piece of a text: the byte offset at which it starts, and its `char`s.
pub type Piece = (int, Seq<char>);

/// The pieces put together.
pub open spec fn joined(pieces: Seq<Piece>) -> Seq<char>
    decreases pieces.len(),
{
    if pieces.len() == 0 {
        Seq::empty()
    } else {
        pieces[0].1 + joined(pieces.drop_first())
    }
}

/// The pieces, none of them empty, make up `text`, and each starts where those
/// in front of it end.
pub open spec fn tiles(pieces: Seq<Piece>, text: Seq<char>) -> bool {
    &&& joined(pieces) == text
    &&& forall|i: int|
        0 <= i < pieces.len() ==> (#[trigger] pieces[i]).1.len() > 0 && pieces[i].0 == utf8::utf8_len(
            joined(pieces.take(i)),
        )
}

/// The pieces that `list` holds.
pub open spec fn pieces_of(list: Seq<(usize, &str)>) -> Seq<Piece> {
    Seq::new(list.len(), |i: int| (list[i].0 as int, list[i].1@))
}

/// What `str::grapheme_indices(true)` yields on `text`, from its front.
pub uninterp spec fn graphemes_of(text: Seq<char>) -> Seq<(int, Seq<char>)>;

/// Where the cluster starts that `str::grapheme_indices(true)` yields first on
/// `text` when it is walked from its back.
pub uninterp spec fn last_grapheme_start_of(text: Seq<char>) -> Option<int>;

/// What `str::split_word_bound_indices` yields on `text`, from its front.
pub uninterp spec fn word_bounds_of(text: Seq<char>) -> Seq<(int, Seq<char>)>;

/// What `str::split_word_bound_indices` yields on `text`, from its back.
pub uninterp spec fn word_bounds_from_back_of(text: Seq<char>) -> Seq<(int, Seq<char>)>;

/// What `char::is_alphanumeric` answers for `c`.
pub uninterp spec fn char_is_alphanumeric(c: char) -> bool;

/// A text that ends between two of these clusters has the clusters in front of that
/// place for its own.
pub open spec fn prefixes_keep_clusters(pieces: Seq<Piece>) -> bool {
    forall|k: int|
        0 <= k <= pieces.len() ==> graphemes_of(joined(#[trigger] pieces.take(k))) == pieces.take(
            k,
        )
}

/// `UnicodeSegmentation::grapheme_indices`, for extended clusters, collected.
///
/// Trusted: the clusters depend on the text alone, none of them is empty, put
/// together they are the text, and each comes with the byte offset at which it
/// starts. Whether a cluster ends at an offset is decided by what stands in front of
/// it and by the `char` behind it, and one always ends where the text ends, so a
/// text that is cut off between two clusters keeps those in front of the cut.
#[verifier::external_body]
pub(crate) fn graphemes<'a>(text: &'a str) -> (pieces: Vec<(usize, &'a str)>)
    ensures
        pieces_of(pieces@) == graphemes_of(text@),
        tiles(pieces_of(pieces@), text@),
        prefixes_keep_clusters(pieces_of(pieces@)),
{
    text.grapheme_indices(true).collect()
}

/// `GraphemeIndices::next_back` on `UnicodeSegmentation::grapheme_indices`, for
/// extended clusters, reduced to the offset.
///
/// Trusted: the offset depends on the text alone, there is one unless the text is
/// empty, and it is a boundary in front of the end of the text.
#[verifier::external_body]
pub(crate) fn last_grapheme_start(text: &str) -> (start: Option<usize>)
    ensures
        match start {
            Some(at) => last_grapheme_start_of(text@) == Some(at as int) && utf8::is_boundary(
                text@,
                at as int,
            ) && at < utf8::utf8_len(text@),
            None => last_grapheme_start_of(text@) is None && text@.len() == 0,
        },
{
    text.grapheme_indices(true).next_back().map(|(index, _)| index)
}

/// `UnicodeSegmentation::split_word_bound_indices`, collected.
///
/// Trusted: the substrings depend on the text alone, none of them is empty, put
/// together they are the text, and each comes with the byte offset at which it
/// starts.
#[verifier::external_body]
pub(crate) fn word_bounds<'a>(text: &'a str) -> (pieces: Vec<(usize, &'a str)>)
    ensures
        pieces_of(pieces@) == word_bounds_of(text@),
        tiles(pieces_of(pieces@), text@),
{
    text.split_word_bound_indices().collect()
}

/// `UWordBoundIndices::next_back` on `UnicodeSegmentation::split_word_bound_indices`,
/// collected until it ends.
///
/// Trusted: the substrings depend on the text alone, none of them is empty, put
/// together from the last to the first they are the text, and each comes with the
/// byte offset at which it starts.
#[verifier::external_body]
pub(crate) fn word_bounds_from_back<'a>(text: &'a str) -> (pieces: Vec<(usize, &'a str)>)
    ensures
        pieces_of(pieces@) == word_bounds_from_back_of(text@),
        tiles(pieces_of(pieces@).reverse(), text@),
{
    text.split_word_bound_indices().rev().collect()
}

/// `char::is_alphanumeric`: the answer depends on the `char` alone.
pub assume_specification[ char::is_alphanumeric ](c: char) -> (answer: bool)
    ensures
        answer == char_is_alphanumeric(c),
;

/// No `char` of `word` is alphanumeric.
pub open spec fn separates(word: Seq<char>) -> bool {
    forall|i: int| 0 <= i < word.len() ==> !char_is_alphanumeric(#[trigger] word[i])
}

/// How many of the pieces in front of the first word separate words.
pub open spec fn separators_before_word(pieces: Seq<Piece>) -> int
    decreases pieces.len(),
{
    if pieces.len() == 0 {
        0
    } else if separates(pieces[0].1) {
        1 + separators_before_word(pieces.drop_first())
    } else {
        0
    }
}

/// Where the first word among `pieces` starts; 0 where there is none.
pub open spec fn word_start_in(pieces: Seq<Piece>) -> int {
    let i = separators_before_word(pieces);
    if i < pieces.len() {
        pieces[i].0
    } else {
        0
    }
}

/// Where the first word among `pieces` ends; `otherwise` where there is none.
pub open spec fn word_end_in(pieces: Seq<Piece>, otherwise: int) -> int {
    let i = separators_before_word(pieces);
    if i < pieces.len() {
        pieces[i].0 + utf8::utf8_len(pieces[i].1)
    } else {
        otherwise
    }
}

/// How many bytes the first of the pieces takes up; 0 where there is none.
pub open spec fn first_len_in(pieces: Seq<Piece>) -> nat {
    if pieces.len() > 0 {
        utf8::utf8_len(pieces[0].1)
    } else {
        0
    }
}

/// Where piece `column` starts; `otherwise` where there are not that many.
pub open spec fn column_start_in(pieces: Seq<Piece>, column: int, otherwise: int) -> int {
    if 0 <= column < pieces.len() {
        pieces[column].0
    } else {
        otherwise
    }
}

/// Everything in front of the first word separates words.
pub proof fn lemma_separators_before_word(pieces: Seq<Piece>)
    ensures
        0 <= separators_before_word(pieces) <= pieces.len(),
        forall|i: int|
            0 <= i < separators_before_word(pieces) ==> separates((#[trigger] pieces[i]).1),
        separators_before_word(pieces) < pieces.len() ==> !separates(
            pieces[separators_before_word(pieces)].1,
        ),
    decreases pieces.len(),
{
    if pieces.len() > 0 && separates(pieces[0].1) {
        let rest = pieces.drop_first();
        lemma_separators_before_word(rest);
        assert forall|i: int| 0 <= i < separators_before_word(pieces) implies separates(
            (#[trigger] pieces[i]).1,
        ) by {
            if i > 0 {
                assert(pieces[i] == rest[i - 1]);
            }
        }
    }
}

/// A piece that is no separator, behind pieces that are, is the first word.
proof fn lemma_first_word(pieces: Seq<Piece>, at: int)
    requires
        0 <= at <= pieces.len(),
        forall|i: int| 0 <= i < at ==> separates((#[trigger] pieces[i]).1),
        at < pieces.len() ==> !separates(pieces[at].1),
    ensures
        separators_before_word(pieces) == at,
{
    lemma_separators_before_word(pieces);
    let found = separators_before_word(pieces);
    if found < at {
        assert(separates(pieces[found].1));
    }
    if at < found {
        assert(separates(pieces[at].1));
    }
}

/// Pieces put together in two goes.
proof fn lemma_joined_split(pieces: Seq<Piece>, i: int)
    requires
        0 <= i <= pieces.len(),
    ensures
        joined(pieces.take(i)) + joined(pieces.skip(i)) == joined(pieces),
    decreases i,
{
    if i == 0 {
        assert(pieces.take(0) =~= Seq::empty());
        assert(pieces.skip(0) =~= pieces);
        assert(joined(pieces.take(i)) + joined(pieces.skip(i)) =~= joined(pieces));
    } else {
        let rest = pieces.drop_first();
        lemma_joined_split(rest, i - 1);
        assert(pieces.take(i).drop_first() =~= rest.take(i - 1));
        assert(pieces.skip(i) =~= rest.skip(i - 1));
        assert(joined(pieces.take(i)) + joined(pieces.skip(i)) =~= pieces[0].1 + (joined(
            rest.take(i - 1),
        ) + joined(rest.skip(i - 1))));
    }
}

/// A piece of a tiling lies inside the text, between two boundaries, and holds
/// what the text holds there.
pub proof fn lemma_piece(pieces: Seq<Piece>, text: Seq<char>, i: int)
    requires
        tiles(pieces, text),
        0 <= i < pieces.len(),
    ensures
        pieces[i].1.len() > 0,
        utf8::utf8_len(pieces[i].1) > 0,
        utf8::is_cut(text, pieces[i].0, pieces[i].0 + utf8::utf8_len(pieces[i].1)),
        0 <= pieces[i].0 < pieces[i].0 + utf8::utf8_len(pieces[i].1) <= utf8::utf8_len(text),
        utf8::before(text, pieces[i].0) == joined(pieces.take(i)),
        utf8::after(text, pieces[i].0 + utf8::utf8_len(pieces[i].1)) == joined(pieces.skip(i + 1)),
        utf8::between(text, pieces[i].0, pieces[i].0 + utf8::utf8_len(pieces[i].1)) == pieces[i].1,
{
    let front = joined(pieces.take(i));
    let piece = pieces[i].1;
    let back = joined(pieces.skip(i + 1));
    lemma_joined_split(pieces, i);
    assert(pieces.skip(i).drop_first() =~= pieces.skip(i + 1));
    assert(pieces.skip(i)[0] == pieces[i]);
    utf8::lemma_join(front, piece + back);
    assert(text =~= (front + piece) + back);
    utf8::lemma_join(front + piece, back);
    utf8::lemma_encode_concat(front, piece);
    utf8::lemma_encode_concat(front + piece, back);
    utf8::lemma_len_zero(piece);
    let from = pieces[i].0;
    let to = from + utf8::utf8_len(piece);
    utf8::lemma_between(text, from, to);
    assert(utf8::between(text, from, to) == utf8::after(utf8::before(text, to), from));
    utf8::lemma_join(front, piece);
}

/// Pieces that separate words separate them when put together.
pub proof fn lemma_joined_separators(pieces: Seq<Piece>)
    requires
        forall|i: int| 0 <= i < pieces.len() ==> separates((#[trigger] pieces[i]).1),
    ensures
        separates(joined(pieces)),
    decreases pieces.len(),
{
    if pieces.len() > 0 {
        let rest = pieces.drop_first();
        assert forall|i: int| 0 <= i < rest.len() implies separates((#[trigger] rest[i]).1) by {
            assert(rest[i] == pieces[i + 1]);
        }
        lemma_joined_separators(rest);
        let first = pieces[0].1;
        let all = joined(pieces);
        assert forall|i: int| 0 <= i < all.len() implies !char_is_alphanumeric(
            #[trigger] all[i],
        ) by {
            if i < first.len() {
                assert(all[i] == first[i]);
            } else {
                assert(all[i] == joined(rest)[i - first.len()]);
            }
        }
    }
}

/// Whitespace and punctuation between words: no `char` of `word` is alphanumeric.
pub fn is_separator(word: &str) -> (answer: bool)
    ensures
        answer == separates(word@),
{
    for c in walk: word.chars()
        invariant
            walk.seq() == word@,
            forall|i: int| 0 <= i < walk.index() ==> !char_is_alphanumeric(#[trigger] word@[i]),
    {
        if c.is_alphanumeric() {
            assert(char_is_alphanumeric(word@[walk.index()]));
            return false;
        }
    }
    true
}

/// Index of the first word among `pieces`; their number where there is none.
fn first_word(pieces: &Vec<(usize, &str)>) -> (at: usize)
    ensures
        at == separators_before_word(pieces_of(pieces@)),
        at <= pieces.len(),
{
    let mut at: usize = 0;
    while at < pieces.len() && is_separator(pieces[at].1)
        invariant
            at <= pieces.len(),
            forall|i: int|
                0 <= i < at ==> separates((#[trigger] pieces_of(pieces@)[i]).1),
        decreases pieces.len() - at,
    {
        at = at + 1;
    }
    proof {
        lemma_first_word(pieces_of(pieces@), at as int);
    }
    at
}

/// Where the first word among `pieces` starts; 0 where there is none.
pub fn word_start(pieces: &Vec<(usize, &str)>) -> (start: usize)
    ensures
        start == word_start_in(pieces_of(pieces@)),
{
    let at: usize = first_word(pieces);
    if at < pieces.len() {
        pieces[at].0
    } else {
        0
    }
}

/// Where the first word among `pieces` ends; `otherwise` where there is none.
pub fn word_end(pieces: &Vec<(usize, &str)>, otherwise: usize) -> (end: usize)
    requires
        forall|i: int|
            0 <= i < pieces.len() ==> (#[trigger] pieces@[i]).0 + utf8::utf8_len(pieces@[i].1@)
                <= usize::MAX,
    ensures
        end == word_end_in(pieces_of(pieces@), otherwise as int),
{
    let at: usize = first_word(pieces);
    if at < pieces.len() {
        let len: usize = utf8::byte_len(pieces[at].1);
        pieces[at].0 + len
    } else {
        otherwise
    }
}

/// How many bytes the first of the pieces takes up; 0 where there is none.
pub fn first_len(pieces: &Vec<(usize, &str)>) -> (len: usize)
    ensures
        len == first_len_in(pieces_of(pieces@)),
{
    if pieces.len() > 0 {
        utf8::byte_len(pieces[0].1)
    } else {
        0
    }
}

/// Where piece `column` starts; `otherwise` where there are not that many.
pub fn column_start(pieces: &Vec<(usize, &str)>, column: usize, otherwise: usize) -> (start: usize)
    ensures
        start == column_start_in(pieces_of(pieces@), column as int, otherwise as int),
{
    if column < pieces.len() {
        pieces[column].0
    } else {
        otherwise
    }
}

/// A text separates words exactly when all parts of it do, and a single `char` does
/// when it is not alphanumeric.
pub proof fn law_parts_of_a_separator_separate(left: Seq<char>, right: Seq<char>, c: char)
    ensures
        separates(left + right) <==> separates(left) && separates(right),
        separates(seq![c]) <==> !char_is_alphanumeric(c),
        separates(Seq::empty()),
{
    let whole = left + right;
    if separates(whole) {
        assert forall|i: int| 0 <= i < left.len() implies !char_is_alphanumeric(
            #[trigger] left[i],
        ) by {
            assert(whole[i] == left[i]);
        }
        assert forall|i: int| 0 <= i < right.len() implies !char_is_alphanumeric(
            #[trigger] right[i],
        ) by {
            assert(whole[left.len() + i] == right[i]);
        }
    }
    if !char_is_alphanumeric(c) {
        assert forall|i: int| 0 <= i < seq![c].len() implies !char_is_alphanumeric(
            #[trigger] seq![c][i],
        ) by {}
    } else {
        assert(char_is_alphanumeric(seq![c][0]));
    }
}

/// Some piece is no separator while all in front of it are, and a word starts and
/// ends where that piece does; or all pieces are separators.
pub proof fn law_first_word_decides(pieces: Seq<Piece>, otherwise: int)
    ensures
        (exists|i: int|
            0 <= i < pieces.len() && !separates((#[trigger] pieces[i]).1) && (forall|j: int|
                0 <= j < i ==> separates((#[trigger] pieces[j]).1)) && word_start_in(pieces)
                == pieces[i].0 && word_end_in(pieces, otherwise) == pieces[i].0 + utf8::utf8_len(
                pieces[i].1,
            )) || ((forall|j: int| 0 <= j < pieces.len() ==> separates((#[trigger] pieces[j]).1))
            && word_start_in(pieces) == 0 && word_end_in(pieces, otherwise) == otherwise),
{
    lemma_separators_before_word(pieces);
    let i = separators_before_word(pieces);
    if i < pieces.len() {
        assert(!separates(pieces[i].1));
    }
}

/// In a text that its pieces tile, column `column` starts behind that many pieces,
/// and the first piece is as long as the second one is far from the start.
pub proof fn law_columns_count_pieces(
    pieces: Seq<Piece>,
    text: Seq<char>,
    column: int,
    otherwise: int,
)
    requires
        tiles(pieces, text),
        column >= 0,
    ensures
        column < pieces.len() ==> column_start_in(pieces, column, otherwise) == utf8::utf8_len(
            joined(pieces.take(column)),
        ),
        column >= pieces.len() ==> column_start_in(pieces, column, otherwise) == otherwise,
        pieces.len() == 0 ==> first_len_in(pieces) == 0,
        pieces.len() > 0 ==> first_len_in(pieces) == utf8::utf8_len(joined(pieces.take(1))),
        pieces.len() > 1 ==> first_len_in(pieces) == pieces[1].0,
{
    if pieces.len() > 0 {
        let one = pieces.take(1);
        assert(one.drop_first() =~= Seq::empty());
        assert(joined(one.drop_first()) =~= Seq::<char>::empty());
        assert(joined(one) =~= one[0].1);
    }
    if pieces.len() > 1 {
        assert(pieces[1].0 == utf8::utf8_len(joined(pieces.take(1))));
    }
}

} // verus!
