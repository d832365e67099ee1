//! Random edits of a text, for fuzzing.
use crate::types;
use crate::types::TextDelta;
use rand::Rng;
use vstd::prelude::*;

verus! {

/// How many pieces a random text is made of.
pub const PIECES: usize = 4;

/// How many pieces there are to choose from.
pub const OPTIONS: usize = 5;

/// How many characters a random edit deletes at most.
pub const MAX_DELETION: usize = 3;

/// The pieces that random texts are made of.
pub open spec fn piece(choice: usize) -> Seq<char> {
    if choice == 0 {
        "d"@
    } else if choice == 1 {
        "\u{fc}"@
    } else if choice == 2 {
        "\u{1f955}"@
    } else if choice == 3 {
        "\u{1f49a}"@
    } else {
        "\n"@
    }
}

/// The chosen pieces, one after the other.
pub open spec fn pieces(choices: Seq<usize>) -> Seq<char>
    decreases choices.len(),
{
    if choices.len() == 0 {
        Seq::empty()
    } else {
        pieces(choices.drop_last()) + piece(choices.last())
    }
}

/// What is drawn for an edit of a text of `length` characters: pieces, a position, and, unless
/// the position is the end, a number below what is left of the text.
pub open spec fn is_draw(length: nat, choices: Seq<usize>, position: usize, drawn: usize) -> bool {
    &&& choices.len() == PIECES
    &&& forall|i: int| 0 <= i < choices.len() ==> #[trigger] choices[i] < OPTIONS
    &&& position <= length
    &&& position < length ==> drawn < length - position
}

/// How many characters are deleted.
pub open spec fn deletion(length: nat, position: usize, drawn: usize) -> nat {
    if position >= length {
        0
    } else if drawn < MAX_DELETION {
        drawn as nat
    } else {
        MAX_DELETION as nat
    }
}

/// The edit that goes to the position, inserts the pieces, and deletes behind them.
pub open spec fn edit(
    length: nat,
    choices: Seq<usize>,
    position: usize,
    drawn: usize,
) -> Seq<types::TextOpView> {
    seq![
        types::TextOpView::Retain(position as nat),
        types::TextOpView::Insert(pieces(choices)),
        types::TextOpView::Delete(deletion(length, position, drawn)),
    ]
}

/// `rand::Rng::gen_range` of the generator of `rand::thread_rng`: some number from zero up to and
/// including `high`. Which one is left to chance; how likely each is, is left unsaid.
#[verifier::external_body]
fn random_up_to(high: usize) -> (r: usize)
    ensures
        r <= high,
{
    rand::thread_rng().gen_range(0..=high)
}

/// `value` is what drawing a number up to `high` can give.
pub closed spec fn drawn_up_to(high: usize, value: usize) -> bool {
    call_ensures(random_up_to, (high,), value)
}

/// Every number of the draw was drawn for its purpose: the pieces among all pieces, the position
/// in the whole text, and the deletion in what is left of the text.
pub open spec fn is_drawn(length: nat, choices: Seq<usize>, position: usize, drawn: usize) -> bool {
    &&& is_draw(length, choices, position, drawn)
    &&& forall|i: int|
        0 <= i < choices.len() ==> drawn_up_to((OPTIONS - 1) as usize, #[trigger] choices[i])
    &&& drawn_up_to(length as usize, position)
    &&& position < length ==> drawn_up_to((length - position - 1) as usize, drawn)
}

/// `delta` is a random edit of `text`.
pub open spec fn is_random_edit(text: Seq<char>, delta: TextDelta) -> bool {
    exists|choices: Seq<usize>, position: usize, drawn: usize|
        {
            &&& is_drawn(text.len(), choices, position, drawn)
            &&& delta@ == #[trigger] edit(text.len(), choices, position, drawn)
        }
}

/// The edit that follows from what was drawn.
pub fn edit_from_draw(
    length: usize,
    choices: &Vec<usize>,
    position: usize,
    drawn: usize,
) -> (r: TextDelta)
    requires
        is_draw(length as nat, choices@, position, drawn),
    ensures
        r@ == edit(length as nat, choices@, position, drawn),
{
    let mut text = String::new();
    let mut i: usize = 0;
    while i < choices.len()
        invariant
            i <= choices@.len(),
            text@ == pieces(choices@.take(i as int)),
        decreases choices@.len() - i,
    {
        let choice: usize = choices[i];
        text.append(
            if choice == 0 {
                "d"
            } else if choice == 1 {
                "\u{fc}"
            } else if choice == 2 {
                "\u{1f955}"
            } else if choice == 3 {
                "\u{1f49a}"
            } else {
                "\n"
            },
        );
        assert(choices@.take(i + 1).drop_last() =~= choices@.take(i as int));
        i = i + 1;
    }
    assert(choices@.take(i as int) =~= choices@);
    let deleted: usize = if position >= length {
        0
    } else if drawn < MAX_DELETION {
        drawn
    } else {
        MAX_DELETION
    };
    let mut delta = TextDelta::new();
    delta.retain(position);
    delta.insert(text.as_str());
    delta.delete(deleted);
    assert(delta@ =~= edit(length as nat, choices@, position, drawn));
    delta
}

/// A random edit of `text`.
pub fn random_delta(text: &str) -> (r: TextDelta)
    ensures
        is_random_edit(text@, r),
{
    let length: usize = text.unicode_len();
    let mut choices: Vec<usize> = Vec::new();
    while choices.len() < PIECES
        invariant
            choices@.len() <= PIECES,
            forall|i: int| 0 <= i < choices@.len() ==> #[trigger] choices@[i] < OPTIONS,
            forall|i: int|
                0 <= i < choices@.len() ==> drawn_up_to(
                    (OPTIONS - 1) as usize,
                    #[trigger] choices@[i],
                ),
        decreases PIECES - choices@.len(),
    {
        choices.push(random_up_to(OPTIONS - 1));
    }
    let position: usize = random_up_to(length);
    let drawn: usize = if position < length {
        random_up_to(length - position - 1)
    } else {
        0
    };
    assert(is_drawn(text@.len(), choices@, position, drawn));
    edit_from_draw(length, &choices, position, drawn)
}

/// The random text has one character for each choice, in order: the one that the choice stands
/// for.
pub proof fn law_pieces(choices: Seq<usize>)
    ensures
        pieces(choices).len() == choices.len(),
        forall|i: int|
            0 <= i < choices.len() ==> {
                &&& choices[i] == 0 ==> #[trigger] pieces(choices)[i] == 'd'
                &&& choices[i] == 1 ==> pieces(choices)[i] == '\u{fc}'
                &&& choices[i] == 2 ==> pieces(choices)[i] == '\u{1f955}'
                &&& choices[i] == 3 ==> pieces(choices)[i] == '\u{1f49a}'
                &&& choices[i] >= 4 ==> pieces(choices)[i] == '\n'
            },
    decreases choices.len(),
{
    reveal_strlit("d");
    reveal_strlit("\u{fc}");
    reveal_strlit("\u{1f955}");
    reveal_strlit("\u{1f49a}");
    reveal_strlit("\n");
    if choices.len() > 0 {
        law_pieces(choices.drop_last());
        let less = choices.drop_last();
        assert(forall|i: int| 0 <= i < less.len() ==> less[i] == choices[i]);
    }
}

/// The edit that follows from a draw: it keeps what is before the position, inserts a character
/// for each choice, and deletes the drawn number of characters, but at most three, and none at
/// the end of the text.
pub proof fn law_edit(length: nat, choices: Seq<usize>, position: usize, drawn: usize)
    ensures
        edit(length, choices, position, drawn).len() == 3,
        edit(length, choices, position, drawn)[0] == types::TextOpView::Retain(position as nat),
        edit(length, choices, position, drawn)[1] matches types::TextOpView::Insert(text)
            && text == pieces(choices) && text.len() == choices.len(),
        edit(length, choices, position, drawn)[2] matches types::TextOpView::Delete(deleted) && (
        position >= length ==> deleted == 0) && (position < length && drawn <= 3 ==> deleted
            == drawn) && (position < length && drawn > 3 ==> deleted == 3),
{
    law_pieces(choices);
}

/// A random edit stays within the text: what it keeps and deletes is there. It deletes few
/// characters, and never the last one.
pub proof fn law_edit_within_text(
    length: nat,
    choices: Seq<usize>,
    position: usize,
    drawn: usize,
)
    requires
        is_draw(length, choices, position, drawn),
    ensures
        position + deletion(length, position, drawn) <= length,
        deletion(length, position, drawn) == 0 || position + deletion(length, position, drawn)
            < length,
        deletion(length, position, drawn) <= MAX_DELETION,
{
}

/// Of a random edit, each of the four pieces is drawn among the five pieces, the position among
/// all positions of the text up to its end, and the deletion below what is left of the text.
pub proof fn law_drawn(length: nat, choices: Seq<usize>, position: usize, drawn: usize)
    requires
        is_drawn(length, choices, position, drawn),
    ensures
        choices.len() == 4,
        forall|i: int| 0 <= i < 4 ==> drawn_up_to(4, #[trigger] choices[i]) && choices[i] <= 4,
        drawn_up_to(length as usize, position) && position <= length,
        position < length ==> drawn_up_to((length - position - 1) as usize, drawn) && drawn
            < length - position,
{
}

/// Whatever is drawn within these bounds is a draw.
pub proof fn law_every_draw(length: nat, choices: Seq<usize>, position: usize, drawn: usize)
    requires
        choices.len() == 4,
        forall|i: int| 0 <= i < 4 ==> #[trigger] choices[i] <= 4,
        position <= length,
        position < length ==> drawn < length - position,
    ensures
        is_draw(length, choices, position, drawn),
{
}

} // verus!
