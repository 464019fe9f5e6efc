//! Small operations on text that the schema is read with: splitting a
//! list of tags at its commas, trimming, and comparing a word without
//! regard to the case of its letters.

use vstd::prelude::*;

verus! {

/// Whether a character is whitespace: one of the code points that have
/// the Unicode property `White_Space`.
pub open spec fn whitespace(c: char) -> bool {
    let code = c as u32;
    ||| 0x09 <= code <= 0x0D
    ||| code == 0x20
    ||| code == 0x85
    ||| code == 0xA0
    ||| code == 0x1680
    ||| 0x2000 <= code <= 0x200A
    ||| code == 0x2028
    ||| code == 0x2029
    ||| code == 0x202F
    ||| code == 0x205F
    ||| code == 0x3000
}

/// Calls `char::is_whitespace`.
///
/// The method answers whether the character has the property
/// `White_Space` of the Unicode character database; the contract claims
/// that these are the code points that [`whitespace`] lists.
#[verifier::external_body]
fn is_space(c: char) -> (r: bool)
    ensures
        r == whitespace(c),
{
    c.is_whitespace()
}

/// The first position from `i` on that holds no whitespace.
pub open spec fn skip_spaces(s: Seq<char>, i: int) -> int
    decreases s.len() - i,
{
    if 0 <= i < s.len() && whitespace(s[i]) {
        skip_spaces(s, i + 1)
    } else {
        i
    }
}

/// The end of the text before `j` once the whitespace at its end is
/// dropped; it never goes below `low`.
pub open spec fn drop_spaces(s: Seq<char>, low: int, j: int) -> int
    decreases j,
{
    if 0 <= low < j <= s.len() && whitespace(s[j - 1]) {
        drop_spaces(s, low, j - 1)
    } else {
        j
    }
}

/// A text without the whitespace at its two ends.
pub open spec fn trimmed(s: Seq<char>) -> Seq<char> {
    let start = skip_spaces(s, 0);
    let end = drop_spaces(s, start, s.len() as int);
    s.subrange(start, end)
}

/// The pieces of `s` from `start` on, where no comma lies between `start`
/// and `i`: a piece ends at each comma and at the end of the text.
pub open spec fn pieces_from(s: Seq<char>, start: int, i: int) -> Seq<Seq<char>>
    decreases s.len() - i,
{
    if i < 0 || i >= s.len() {
        seq![s.subrange(start, s.len() as int)]
    } else if s[i] == ',' {
        seq![s.subrange(start, i)] + pieces_from(s, i + 1, i + 1)
    } else {
        pieces_from(s, start, i + 1)
    }
}

/// A text split at its commas. A text without a comma is one piece, the
/// empty text included.
pub open spec fn split_commas(s: Seq<char>) -> Seq<Seq<char>> {
    pieces_from(s, 0, 0)
}

/// Each piece of a text split at its commas, trimmed.
pub open spec fn split_trimmed_model(s: Seq<char>) -> Seq<Seq<char>> {
    split_commas(s).map_values(|piece: Seq<char>| trimmed(piece))
}

/// Whether `s` is the word that `lower` and `upper` spell in lower and in
/// upper case, letter by letter in either case.
pub open spec fn is_word(s: Seq<char>, lower: Seq<char>, upper: Seq<char>) -> bool {
    s.len() == lower.len() && s.len() == upper.len() && forall|i: int|
        0 <= i < s.len() ==> s[i] == lower[i] || s[i] == #[trigger] upper[i]
}

/// The pieces of a text put together again, with a comma between each two.
pub open spec fn joined(pieces: Seq<Seq<char>>) -> Seq<char>
    decreases pieces.len(),
{
    if pieces.len() == 0 {
        Seq::empty()
    } else if pieces.len() == 1 {
        pieces[0]
    } else {
        pieces[0] + seq![','] + joined(pieces.skip(1))
    }
}

/// What `skip_spaces` returns: everything before it is whitespace, and
/// what stands at it is not.
proof fn lemma_skip_spaces(s: Seq<char>, i: int)
    requires
        0 <= i <= s.len(),
    ensures
        i <= skip_spaces(s, i) <= s.len(),
        forall|k: int| i <= k < skip_spaces(s, i) ==> whitespace(#[trigger] s[k]),
        skip_spaces(s, i) < s.len() ==> !whitespace(s[skip_spaces(s, i)]),
    decreases s.len() - i,
{
    if i < s.len() && whitespace(s[i]) {
        lemma_skip_spaces(s, i + 1);
    }
}

/// What `drop_spaces` returns: everything from it on is whitespace, and
/// what stands before it is not.
proof fn lemma_drop_spaces(s: Seq<char>, low: int, j: int)
    requires
        0 <= low <= j <= s.len(),
    ensures
        low <= drop_spaces(s, low, j) <= j,
        forall|k: int| drop_spaces(s, low, j) <= k < j ==> whitespace(#[trigger] s[k]),
        low < drop_spaces(s, low, j) ==> !whitespace(s[drop_spaces(s, low, j) - 1]),
    decreases j,
{
    if low < j && whitespace(s[j - 1]) {
        lemma_drop_spaces(s, low, j - 1);
    }
}

/// A trimmed text is the text without a run of whitespace at its start
/// and one at its end, and neither begins nor ends with whitespace.
pub proof fn lemma_trimmed(s: Seq<char>)
    ensures
        exists|start: int, end: int|
            0 <= start <= end <= s.len() && #[trigger] s.subrange(start, end) == trimmed(s)
                && (forall|k: int| 0 <= k < start ==> whitespace(#[trigger] s[k])) && (forall|
                k: int,
            | end <= k < s.len() ==> whitespace(#[trigger] s[k])),
        trimmed(s).len() > 0 ==> !whitespace(trimmed(s).first()) && !whitespace(
            trimmed(s).last(),
        ),
{
    let start = skip_spaces(s, 0);
    lemma_skip_spaces(s, 0);
    let end = drop_spaces(s, start, s.len() as int);
    lemma_drop_spaces(s, start, s.len() as int);
    assert(s.subrange(start, end) == trimmed(s));
}

/// The pieces from `start` on hold no comma and, joined, give the text
/// from `start` on.
proof fn lemma_pieces_from(s: Seq<char>, start: int, i: int)
    requires
        0 <= start <= i <= s.len(),
        forall|k: int| start <= k < i ==> s[k] != ',',
    ensures
        pieces_from(s, start, i).len() >= 1,
        joined(pieces_from(s, start, i)) == s.subrange(start, s.len() as int),
        forall|j: int|
            0 <= j < pieces_from(s, start, i).len() ==> !(#[trigger] pieces_from(
                s,
                start,
                i,
            )[j]).contains(','),
    decreases s.len() - i,
{
    let pieces = pieces_from(s, start, i);
    if i >= s.len() {
        assert(pieces[0] == s.subrange(start, s.len() as int));
    } else if s[i] == ',' {
        let rest = pieces_from(s, i + 1, i + 1);
        lemma_pieces_from(s, i + 1, i + 1);
        assert(pieces.skip(1) =~= rest);
        assert(pieces[0] == s.subrange(start, i));
        assert(s.subrange(start, i) + seq![','] + s.subrange(i + 1, s.len() as int) =~= s.subrange(
            start,
            s.len() as int,
        ));
        assert forall|j: int| 0 <= j < pieces.len() implies !(#[trigger] pieces[j]).contains(
            ',',
        ) by {
            if j > 0 {
                assert(pieces[j] == rest[j - 1]);
            }
        }
    } else {
        lemma_pieces_from(s, start, i + 1);
    }
}

/// Splitting at the commas loses nothing but the commas: no piece holds
/// one, and the pieces joined with commas are the text.
pub proof fn lemma_split_commas(s: Seq<char>)
    ensures
        split_commas(s).len() >= 1,
        joined(split_commas(s)) == s,
        forall|j: int|
            0 <= j < split_commas(s).len() ==> !(#[trigger] split_commas(s)[j]).contains(','),
{
    lemma_pieces_from(s, 0, 0);
}

/// Whether two texts are the same.
pub fn text_eq(a: &str, b: &str) -> (r: bool)
    ensures
        r == (a@ == b@),
{
    a.to_owned() == b.to_owned()
}

/// A copy of `text` without the whitespace at its two ends.
pub fn trim(text: &str) -> (r: String)
    ensures
        r@ == trimmed(text@),
{
    let n = text.unicode_len();
    let mut start: usize = 0;
    while start < n && is_space(text.get_char(start))
        invariant
            0 <= start <= n,
            n == text@.len(),
            skip_spaces(text@, 0) == skip_spaces(text@, start as int),
        decreases n - start,
    {
        start += 1;
    }
    let mut end: usize = n;
    while end > start && is_space(text.get_char(end - 1))
        invariant
            start <= end <= n,
            n == text@.len(),
            drop_spaces(text@, start as int, n as int) == drop_spaces(
                text@,
                start as int,
                end as int,
            ),
        decreases end,
    {
        end -= 1;
    }
    text.substring_char(start, end).to_owned()
}

/// Splits `text` at its commas and trims each piece.
pub fn split_trimmed(text: &str) -> (r: Vec<String>)
    ensures
        r.deep_view() == split_trimmed_model(text@),
{
    let ghost s = text@;
    let n = text.unicode_len();
    let mut out: Vec<String> = Vec::new();
    let mut start: usize = 0;
    let mut i: usize = 0;
    while i < n
        invariant
            0 <= start <= i <= n,
            n == s.len(),
            s == text@,
            out.deep_view() + pieces_from(s, start as int, i as int).map_values(
                |piece: Seq<char>| trimmed(piece),
            ) =~= split_trimmed_model(s),
        decreases n - i,
    {
        if text.get_char(i) == ',' {
            let piece = trim(text.substring_char(start, i));
            let ghost before = out.deep_view();
            let ghost rest = pieces_from(s, i + 1, i + 1);
            out.push(piece);
            proof {
                let f = |piece: Seq<char>| trimmed(piece);
                assert(out.deep_view() =~= before.push(trimmed(s.subrange(start as int, i as int))));
                assert(pieces_from(s, start as int, i as int) =~= seq![
                    s.subrange(start as int, i as int),
                ] + rest);
                assert((seq![s.subrange(start as int, i as int)] + rest).map_values(f) =~= seq![
                    trimmed(s.subrange(start as int, i as int)),
                ] + rest.map_values(f));
            }
            start = i + 1;
        }
        i += 1;
    }
    let piece = trim(text.substring_char(start, n));
    let ghost before = out.deep_view();
    out.push(piece);
    proof {
        let f = |piece: Seq<char>| trimmed(piece);
        assert(out.deep_view() =~= before.push(trimmed(s.subrange(start as int, n as int))));
        assert(pieces_from(s, start as int, n as int).map_values(f) =~= seq![
            trimmed(s.subrange(start as int, n as int)),
        ]);
    }
    out
}

/// Whether `text` spells the word of `lower` and `upper`, which hold the
/// same word in lower and in upper case, whatever the case of its letters.
pub fn spells(text: &str, lower: &str, upper: &str) -> (r: bool)
    ensures
        r == is_word(text@, lower@, upper@),
{
    let n = text.unicode_len();
    if n != lower.unicode_len() || n != upper.unicode_len() {
        return false;
    }
    let mut i: usize = 0;
    while i < n
        invariant
            0 <= i <= n,
            n == text@.len(),
            n == lower@.len(),
            n == upper@.len(),
            forall|j: int| 0 <= j < i ==> text@[j] == lower@[j] || text@[j] == #[trigger] upper@[j],
        decreases n - i,
    {
        let c = text.get_char(i);
        if c != lower.get_char(i) && c != upper.get_char(i) {
            return false;
        }
        i += 1;
    }
    true
}

} // verus!
