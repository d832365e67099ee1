//! Operations on strings, stated over their characters.
use vstd::prelude::*;
use vstd::utf8::*;

verus! {

/// The pieces of `text` between the occurrences of `separator`, in order.
///
/// There is always one more piece than there are separators; pieces may be empty.
pub open spec fn segments(text: Seq<char>, separator: char) -> Seq<Seq<char>>
    decreases text.len(),
{
    if text.len() == 0 {
        seq![Seq::empty()]
    } else {
        let before = segments(text.drop_last(), separator);
        if text.last() == separator {
            before.push(Seq::empty())
        } else {
            before.drop_last().push(before.last().push(text.last()))
        }
    }
}

/// The characters of each string.
pub open spec fn views(strings: Seq<String>) -> Seq<Seq<char>> {
    Seq::new(strings.len(), |i: int| strings[i]@)
}

pub proof fn lemma_segments_nonempty(text: Seq<char>, separator: char)
    ensures
        segments(text, separator).len() >= 1,
    decreases text.len(),
{
    if text.len() > 0 {
        lemma_segments_nonempty(text.drop_last(), separator);
    }
}

/// A separator between two texts keeps their pieces apart.
pub proof fn lemma_segments_join(a: Seq<char>, b: Seq<char>, separator: char)
    ensures
        segments(a + seq![separator] + b, separator) == segments(a, separator) + segments(
            b,
            separator,
        ),
    decreases b.len(),
{
    let all = a + seq![separator] + b;
    lemma_segments_nonempty(a, separator);
    lemma_segments_nonempty(b, separator);
    let of_a = segments(a, separator);
    if b.len() == 0 {
        assert(all.drop_last() =~= a);
        assert(segments(all, separator) =~= of_a + segments(b, separator));
    } else {
        let shorter = b.drop_last();
        assert(all.drop_last() =~= a + seq![separator] + shorter);
        lemma_segments_join(a, shorter, separator);
        lemma_segments_nonempty(shorter, separator);
        let of_b = segments(shorter, separator);
        assert((of_a + of_b).drop_last() =~= of_a + of_b.drop_last());
        assert(segments(all, separator) =~= of_a + segments(b, separator));
    }
}

/// A text without the separator is one piece.
pub proof fn lemma_one_segment(text: Seq<char>, separator: char)
    requires
        !text.contains(separator),
    ensures
        segments(text, separator) == seq![text],
    decreases text.len(),
{
    if text.len() > 0 {
        let shorter = text.drop_last();
        assert forall|i: int| 0 <= i < shorter.len() implies shorter[i] != separator by {
            assert(text.contains(text[i]));
        }
        lemma_one_segment(shorter, separator);
        assert(text.contains(text.last()));
        assert(shorter.push(text.last()) =~= text);
        assert(segments(text, separator) =~= seq![text]);
    } else {
        assert(text =~= Seq::empty());
    }
}

/// No piece holds the separator.
pub proof fn lemma_segments_without_separator(text: Seq<char>, separator: char, i: int)
    requires
        0 <= i < segments(text, separator).len(),
    ensures
        !segments(text, separator)[i].contains(separator),
    decreases text.len(),
{
    if text.len() > 0 {
        let before = segments(text.drop_last(), separator);
        lemma_segments_nonempty(text.drop_last(), separator);
        if i < before.len() {
            lemma_segments_without_separator(text.drop_last(), separator, i);
        }
        let piece = segments(text, separator)[i];
        assert forall|k: int| 0 <= k < piece.len() implies piece[k] != separator by {
            if i < before.len() && k < before[i].len() {
                assert(before[i].contains(before[i][k]));
                assert(piece[k] == before[i][k]);
            }
        }
    }
}

/// Whether the two strings hold the same characters.
pub fn same(a: &str, b: &str) -> (r: bool)
    ensures
        r == (a@ == b@),
{
    a.to_owned() == b.to_owned()
}

/// The rest of `text` after `prefix`, if `text` begins with it.
pub fn strip_prefix<'a>(text: &'a str, prefix: &str) -> (r: Option<&'a str>)
    ensures
        match r {
            Some(rest) => prefix@.is_prefix_of(text@) && rest@ == text@.skip(prefix@.len() as int),
            None => !prefix@.is_prefix_of(text@),
        },
{
    let n: usize = prefix.unicode_len();
    let len: usize = text.unicode_len();
    if len < n {
        return None;
    }
    let head = text.substring_char(0, n);
    if same(head, prefix) {
        assert(text@.subrange(n as int, len as int) =~= text@.skip(n as int));
        Some(text.substring_char(n, len))
    } else {
        assert(prefix@.is_prefix_of(text@) ==> head@ =~= prefix@);
        None
    }
}

/// Whether `text` begins with the character `first`.
pub fn starts_with(text: &str, first: char) -> (r: bool)
    ensures
        r == (text@.len() > 0 && text@[0] == first),
{
    text.unicode_len() > 0 && text.get_char(0) == first
}

/// `a` followed by `b`.
pub fn concat(a: &str, b: &str) -> (r: String)
    ensures
        r@ == a@ + b@,
{
    let mut r = a.to_owned();
    r.append(b);
    r
}

/// `std::str::from_utf8`: the string whose UTF-8 encoding the bytes are; `None` if they are not
/// valid UTF-8.
#[verifier::external_body]
pub(crate) fn from_utf8(bytes: &[u8]) -> (r: Option<&str>)
    ensures
        match r {
            Some(text) => valid_utf8(bytes@) && text@ == decode_utf8(bytes@),
            None => !valid_utf8(bytes@),
        },
{
    std::str::from_utf8(bytes).ok()
}

/// Splits `text` at every `separator`.
pub fn split(text: &str, separator: char) -> (r: Vec<String>)
    ensures
        views(r@) == segments(text@, separator),
        r@.len() == segments(text@, separator).len(),
        forall|i: int| 0 <= i < r@.len() ==> (#[trigger] r@[i])@ == segments(text@, separator)[i],
{
    let len: usize = text.unicode_len();
    let mut pieces: Vec<String> = Vec::new();
    let mut start: usize = 0;
    let mut at: usize = 0;
    proof {
        assert(text@.take(0) =~= Seq::empty());
        assert(views(pieces@).push(text@.subrange(0, 0)) =~= segments(text@.take(0), separator));
    }
    while at < len
        invariant
            start <= at <= len,
            len == text@.len(),
            views(pieces@).push(text@.subrange(start as int, at as int)) == segments(
                text@.take(at as int),
                separator,
            ),
        decreases len - at,
    {
        proof {
            let prefix = text@.take(at + 1);
            assert(prefix.drop_last() =~= text@.take(at as int));
            assert(prefix.last() == text@[at as int]);
            let before = segments(text@.take(at as int), separator);
            assert(before.last() == text@.subrange(start as int, at as int));
            assert(before.drop_last() =~= views(pieces@));
            assert(text@.subrange(start as int, at + 1) =~= text@.subrange(
                start as int,
                at as int,
            ).push(text@[at as int]));
            assert(text@.subrange(at + 1, at + 1) =~= Seq::empty());
        }
        if text.get_char(at) == separator {
            let ghost old_pieces = pieces@;
            pieces.push(text.substring_char(start, at).to_owned());
            proof {
                assert(views(pieces@) =~= views(old_pieces).push(
                    text@.subrange(start as int, at as int),
                ));
            }
            start = at + 1;
        }
        at = at + 1;
    }
    let ghost old_pieces = pieces@;
    pieces.push(text.substring_char(start, len).to_owned());
    proof {
        assert(views(pieces@) =~= views(old_pieces).push(text@.subrange(start as int, len as int)));
        assert(text@.take(len as int) =~= text@);
    }
    proof {
        assert(views(pieces@).len() == pieces@.len());
        assert forall|i: int| 0 <= i < pieces@.len() implies (#[trigger] pieces@[i])@ == segments(
            text@,
            separator,
        )[i] by {
            assert(views(pieces@)[i] == pieces@[i]@);
        }
    }
    pieces
}

} // verus!
