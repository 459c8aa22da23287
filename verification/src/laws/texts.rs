//! Laws of the text helpers.

use vstd::prelude::*;

use crate::flake::{evaluation_error, flake_of, local, repo_of};
use crate::text::{
    blank, decimal, digit, joined, place_of, text_before, trimmed, trimmed_end, trimmed_start,
    white_space,
};

verus! {

// --- Order ------------------------------------------------------------------

/// Whether the texts agree on their first characters and the first then ends,
/// or has the smaller character.
pub open spec fn splits_at(a: Seq<char>, b: Seq<char>, place: int) -> bool {
    &&& 0 <= place < b.len()
    &&& place <= a.len()
    &&& forall|i: int| 0 <= i < place ==> #[trigger] a[i] == b[i]
    &&& place == a.len() || (a[place] as int) < (b[place] as int)
}

/// A text comes before another where the two agree up to some place, and there
/// the first ends or has the smaller code point.
pub proof fn law_texts_are_ordered_by_code_point(a: Seq<char>, b: Seq<char>)
    ensures
        text_before(a, b) <==> exists|place: int| splits_at(a, b, place),
    decreases a.len(),
{
    if a.len() == 0 {
        if b.len() > 0 {
            assert(splits_at(a, b, 0));
        }
    } else if b.len() > 0 {
        let (x, y) = (a.drop_first(), b.drop_first());
        law_texts_are_ordered_by_code_point(x, y);
        if a[0] != b[0] {
            if (a[0] as int) < (b[0] as int) {
                assert(splits_at(a, b, 0));
            }
            assert forall|place: int| splits_at(a, b, place) implies place == 0 by {
                if place > 0 {
                    assert(a[0] == b[0]);
                }
            }
        } else {
            if text_before(x, y) {
                let place = choose|place: int| splits_at(x, y, place);
                assert forall|i: int| 0 <= i < place + 1 implies #[trigger] a[i] == b[i] by {
                    if i > 0 {
                        assert(x[i - 1] == y[i - 1]);
                    }
                }
                assert(splits_at(a, b, place + 1));
            }
            if exists|place: int| splits_at(a, b, place) {
                let place = choose|place: int| splits_at(a, b, place);
                assert forall|i: int| 0 <= i < place - 1 implies #[trigger] x[i] == y[i] by {
                    assert(a[i + 1] == b[i + 1]);
                }
                assert(splits_at(x, y, place - 1));
            }
        }
    }
}

// --- Numbers ----------------------------------------------------------------

/// The number that a text of digits stands for.
pub open spec fn number_of(text: Seq<char>) -> int
    decreases text.len(),
{
    if text.len() == 0 {
        0
    } else {
        10 * number_of(text.drop_last()) + (text.last() as int - 48)
    }
}

/// A number is written in digits that stand for it, without a leading zero
/// where there are several.
pub proof fn law_numbers_read_back(number: nat)
    ensures
        number_of(decimal(number)) == number,
        decimal(number).len() > 0,
        forall|i: int|
            0 <= i < decimal(number).len() ==> 48 <= (#[trigger] decimal(number)[i]) as int <= 57,
        decimal(number).len() > 1 ==> decimal(number)[0] as int != 48,
    decreases number,
{
    assert(forall|value: nat| value < 10 ==> (#[trigger] digit(value)) as int == 48 + value);
    if number < 10 {
        let text = decimal(number);
        assert(text =~= seq![digit(number)]);
        assert(text.drop_last() =~= Seq::empty());
        assert(number_of(text.drop_last()) == 0);
    } else {
        law_numbers_read_back(number / 10);
        let front = decimal(number / 10);
        let text = decimal(number);
        assert(text == front.push(digit(number % 10)));
        assert(text.drop_last() =~= front);
        assert(text.last() == digit(number % 10));
        assert(text[0] == front[0]);
        if front.len() == 1 {
            assert(front.drop_last() =~= Seq::empty());
            assert(number_of(front.drop_last()) == 0);
            assert(number_of(front) == front.last() as int - 48);
            assert(front.last() == front[0]);
        }
    }
}

// --- Lists --------------------------------------------------------------------

/// Joining nothing gives nothing, and joining one text gives that text.
pub proof fn law_joining_few(text: Seq<char>, separator: Seq<char>)
    ensures
        joined(Seq::empty(), separator).len() == 0,
        joined(seq![text], separator) == text,
{
}

/// Joining two lists that are not empty one after the other puts the separator
/// between what each of them gives.
pub proof fn law_joining_lists(
    first: Seq<Seq<char>>,
    second: Seq<Seq<char>>,
    separator: Seq<char>,
)
    requires
        first.len() > 0,
        second.len() > 0,
    ensures
        joined(first + second, separator) == joined(first, separator) + separator + joined(
            second,
            separator,
        ),
    decreases second.len(),
{
    let both = first + second;
    assert(both.drop_last() =~= first + second.drop_last());
    if second.len() == 1 {
        assert(both.drop_last() =~= first);
    } else {
        law_joining_lists(first, second.drop_last(), separator);
        assert(joined(both, separator) =~= joined(first, separator) + separator + joined(
            second,
            separator,
        ));
    }
}

// --- White space ----------------------------------------------------------------

/// The code points that count as white space.
pub open spec fn is_white(code: int) -> bool {
    ||| 9 <= code <= 13
    ||| code == 32
    ||| code == 133
    ||| code == 160
    ||| code == 5760
    ||| 8192 <= code <= 8202
    ||| code == 8232
    ||| code == 8233
    ||| code == 8239
    ||| code == 8287
    ||| code == 12288
}

/// White space is what Unicode calls so, and a text is blank where each of its
/// characters is white space.
pub proof fn law_white_space(text: Seq<char>, c: char)
    ensures
        white_space(c) <==> is_white(c as int),
        !blank(text) <==> exists|i: int|
            0 <= i < text.len() && !is_white((#[trigger] text[i]) as int),
{
    if !blank(text) {
        let i = choose|i: int| 0 <= i < text.len() && !white_space(#[trigger] text[i]);
        assert(!is_white(text[i] as int));
    }
    if exists|i: int| 0 <= i < text.len() && !is_white((#[trigger] text[i]) as int) {
        let i = choose|i: int| 0 <= i < text.len() && !is_white((#[trigger] text[i]) as int);
        assert(!white_space(text[i]));
    }
}

/// Whether a text is another without white space at its two ends: what is left
/// out is white space, and what is left neither starts nor ends with any.
pub open spec fn is_core(core: Seq<char>, text: Seq<char>, start: int, end: int) -> bool {
    &&& 0 <= start <= end <= text.len()
    &&& core == text.subrange(start, end)
    &&& forall|i: int|
        0 <= i < text.len() && (i < start || end <= i) ==> is_white((#[trigger] text[i]) as int)
    &&& core.len() > 0 ==> !is_white(core[0] as int) && !is_white(core.last() as int)
}

/// Trimming takes away the white space at the two ends and nothing else.
pub proof fn law_trimming_takes_the_ends(text: Seq<char>)
    ensures
        exists|start: int, end: int| is_core(trimmed(text), text, start, end),
{
    let start = lemma_start(text);
    let rest = text.skip(start);
    let end = lemma_end(rest);
    let core = trimmed(text);
    assert(trimmed_start(text) == rest);
    assert(core == rest.take(end));
    assert(core =~= text.subrange(start, start + end));
    assert forall|i: int| 0 <= i < text.len() && (i < start || start + end <= i) implies is_white(
        (#[trigger] text[i]) as int,
    ) by {
        if i >= start {
            assert(rest[i - start] == text[i]);
            assert(white_space(rest[i - start]));
        }
    }
    if core.len() > 0 {
        assert(core[0] == rest[0]);
    }
    assert(is_core(core, text, start, start + end));
}

proof fn lemma_start(text: Seq<char>) -> (start: int)
    ensures
        0 <= start <= text.len(),
        trimmed_start(text) == text.skip(start),
        forall|i: int| 0 <= i < start ==> white_space(#[trigger] text[i]),
        start < text.len() ==> !white_space(text[start]),
    decreases text.len(),
{
    if text.len() > 0 && white_space(text[0]) {
        let rest = text.drop_first();
        let start = lemma_start(rest);
        assert(rest.skip(start) =~= text.skip(start + 1));
        assert forall|i: int| 0 <= i < start + 1 implies white_space(#[trigger] text[i]) by {
            if i > 0 {
                assert(rest[i - 1] == text[i]);
            }
        }
        start + 1
    } else {
        assert(text.skip(0) =~= text);
        0
    }
}

proof fn lemma_end(text: Seq<char>) -> (end: int)
    ensures
        0 <= end <= text.len(),
        trimmed_end(text) == text.take(end),
        forall|i: int| end <= i < text.len() ==> white_space(#[trigger] text[i]),
        end > 0 ==> !white_space(text[end - 1]),
    decreases text.len(),
{
    if text.len() > 0 && white_space(text.last()) {
        let rest = text.drop_last();
        let end = lemma_end(rest);
        assert(rest.take(end) =~= text.take(end));
        assert forall|i: int| end <= i < text.len() implies white_space(#[trigger] text[i]) by {
            if i < rest.len() {
                assert(rest[i] == text[i]);
            }
        }
        end
    } else {
        assert(text.take(text.len() as int) =~= text);
        text.len() as int
    }
}

// --- Flake references -------------------------------------------------------------

/// The place of a character is the first one where it stands, or the end of a
/// text without it.
pub proof fn law_places_are_the_first(text: Seq<char>, c: char)
    ensures
        0 <= place_of(text, c) <= text.len(),
        place_of(text, c) < text.len() ==> text[place_of(text, c)] == c,
        forall|i: int| 0 <= i < place_of(text, c) ==> #[trigger] text[i] != c,
    decreases text.len(),
{
    if text.len() > 0 && text[0] != c {
        let rest = text.drop_first();
        law_places_are_the_first(rest, c);
        assert forall|i: int| 0 <= i < place_of(text, c) implies #[trigger] text[i] != c by {
            if i > 0 {
                assert(rest[i - 1] == text[i]);
            }
        }
    }
}

/// A reference `flake#repo` names the flake before the first `#`, here where
/// nothing stands there, and the repository behind it.
pub proof fn law_references_are_split(flake: Seq<char>, repo: Seq<char>)
    requires
        !flake.contains('#'),
    ensures
        flake_of(flake + seq!['#'] + repo) == (if flake.len() > 0 {
            flake
        } else {
            "."@
        }),
        repo_of(flake + seq!['#'] + repo) == repo,
        flake_of(flake) == (if flake.len() > 0 {
            flake
        } else {
            "."@
        }),
        repo_of(flake).len() == 0,
{
    let reference = flake + seq!['#'] + repo;
    law_places_are_the_first(reference, '#');
    law_places_are_the_first(flake, '#');
    let place = place_of(reference, '#');
    assert(reference[flake.len() as int] == '#');
    if place < flake.len() {
        assert(flake[place] == reference[place]);
        assert(flake.contains('#'));
    }
    assert(place == flake.len());
    assert(reference.take(place) =~= flake);
    assert(reference.skip(place + 1) =~= repo);
    if place_of(flake, '#') < flake.len() {
        assert(flake.contains(flake[place_of(flake, '#')]));
    }
    assert(flake.take(flake.len() as int) =~= flake);
}

/// What is said of a flake that cannot be evaluated names it, and ends with
/// what the evaluation said.
pub proof fn law_evaluation_errors(reference: Seq<char>, output: Seq<char>)
    ensures
        evaluation_error(reference, output) == "evaluating flake `"@ + (reference
            + ("` failed:\n"@ + trimmed(output))),
{
    assert(evaluation_error(reference, output) =~= "evaluating flake `"@ + (reference
        + ("` failed:\n"@ + trimmed(output))));
}

/// A flake is local exactly where it starts like a path.
pub proof fn law_local_flakes_are_paths(rest: Seq<char>, first: char)
    ensures
        local(seq![first] + rest) <==> first == '.' || first == '/',
        !local(Seq::empty()),
{
    assert((seq![first] + rest)[0] == first);
}

} // verus!
