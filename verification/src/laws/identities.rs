//! What is read from a text that tells who a character is.

use vstd::prelude::*;
use vstd::string::*;
use crate::identity::{
    ascendancies, classes, identity_in, identity_matches_in, identity_of, labelled, level_of,
    spelled, spelled_pair, unknown_identity, with_compact, with_lines, with_word, with_words,
    IdentityError, IdentityMatchTexts, IdentityTexts,
};
use crate::number::unsigned_in;
use crate::patterns::{captured_in, first_groups};
use crate::text::{alike, letter_words_of, lines_of, trimmed};

verus! {

// ---------------------------------------------------------------- classes

/// The classes.
pub open spec fn class_names() -> Seq<Seq<char>> {
    seq!["Marauder"@, "Ranger"@, "Witch"@, "Duelist"@, "Templar"@, "Shadow"@, "Scion"@]
}

/// The ascendancies and their classes.
pub open spec fn ascendancy_names() -> Seq<(Seq<char>, Seq<char>)> {
    seq![
        ("Juggernaut"@, "Marauder"@),
        ("Berserker"@, "Marauder"@),
        ("Chieftain"@, "Marauder"@),
        ("Deadeye"@, "Ranger"@),
        ("Raider"@, "Ranger"@),
        ("Pathfinder"@, "Ranger"@),
        ("Necromancer"@, "Witch"@),
        ("Elementalist"@, "Witch"@),
        ("Occultist"@, "Witch"@),
        ("Slayer"@, "Duelist"@),
        ("Gladiator"@, "Duelist"@),
        ("Champion"@, "Duelist"@),
        ("Inquisitor"@, "Templar"@),
        ("Hierophant"@, "Templar"@),
        ("Guardian"@, "Templar"@),
        ("Assassin"@, "Shadow"@),
        ("Saboteur"@, "Shadow"@),
        ("Trickster"@, "Shadow"@),
        ("Ascendant"@, "Scion"@),
    ]
}

/// Whether a word is class `i`, in whatever case.
pub open spec fn is_class(word: Seq<char>, i: int) -> bool {
    &&& 0 <= i < class_names().len()
    &&& alike(class_names()[i], word)
    &&& forall|j: int| 0 <= j < i ==> !alike(#[trigger] class_names()[j], word)
}

/// Whether a word is no class.
pub open spec fn is_no_class(word: Seq<char>) -> bool {
    forall|j: int| 0 <= j < class_names().len() ==> !alike(#[trigger] class_names()[j], word)
}

/// Whether a word is ascendancy `i`, in whatever case.
pub open spec fn is_ascendancy(word: Seq<char>, i: int) -> bool {
    &&& 0 <= i < ascendancy_names().len()
    &&& alike(ascendancy_names()[i].0, word)
    &&& forall|j: int| 0 <= j < i ==> !alike((#[trigger] ascendancy_names()[j]).0, word)
}

/// Whether a word is no ascendancy.
pub open spec fn is_no_ascendancy(word: Seq<char>) -> bool {
    forall|j: int|
        0 <= j < ascendancy_names().len() ==> !alike((#[trigger] ascendancy_names()[j]).0, word)
}

proof fn lemma_spelled(names: Seq<Seq<char>>, word: Seq<char>, i: int)
    ensures
        0 <= i < names.len() && alike(names[i], word) && (forall|j: int|
            0 <= j < i ==> !alike(#[trigger] names[j], word)) ==> spelled(names, word) == Some(
            names[i],
        ),
        (forall|j: int| 0 <= j < names.len() ==> !alike(#[trigger] names[j], word)) ==> spelled(
            names,
            word,
        ) is None,
    decreases names.len(),
{
    if names.len() > 0 {
        let rest = names.skip(1);
        lemma_spelled(rest, word, i - 1);
        if 0 < i < names.len() && alike(names[i], word) && (forall|j: int|
            0 <= j < i ==> !alike(#[trigger] names[j], word)) {
            assert(!alike(names[0], word));
            assert forall|j: int| 0 <= j < i - 1 implies !alike(#[trigger] rest[j], word) by {
                assert(rest[j] == names[j + 1]);
            }
            assert(rest[i - 1] == names[i]);
        }
        if forall|j: int| 0 <= j < names.len() ==> !alike(#[trigger] names[j], word) {
            assert(!alike(names[0], word));
            assert forall|j: int| 0 <= j < rest.len() implies !alike(#[trigger] rest[j], word) by {
                assert(rest[j] == names[j + 1]);
            }
        }
    }
}

proof fn lemma_spelled_pair(pairs: Seq<(Seq<char>, Seq<char>)>, word: Seq<char>, i: int)
    ensures
        0 <= i < pairs.len() && alike(pairs[i].0, word) && (forall|j: int|
            0 <= j < i ==> !alike((#[trigger] pairs[j]).0, word)) ==> spelled_pair(pairs, word)
            == Some(pairs[i]),
        (forall|j: int| 0 <= j < pairs.len() ==> !alike((#[trigger] pairs[j]).0, word))
            ==> spelled_pair(pairs, word) is None,
    decreases pairs.len(),
{
    if pairs.len() > 0 {
        let rest = pairs.skip(1);
        lemma_spelled_pair(rest, word, i - 1);
        if 0 < i < pairs.len() && alike(pairs[i].0, word) && (forall|j: int|
            0 <= j < i ==> !alike((#[trigger] pairs[j]).0, word)) {
            assert(!alike(pairs[0].0, word));
            assert forall|j: int| 0 <= j < i - 1 implies !alike((#[trigger] rest[j]).0, word) by {
                assert(rest[j] == pairs[j + 1]);
            }
            assert(rest[i - 1] == pairs[i]);
        }
        if forall|j: int| 0 <= j < pairs.len() ==> !alike((#[trigger] pairs[j]).0, word) {
            assert(!alike(pairs[0].0, word));
            assert forall|j: int| 0 <= j < rest.len() implies !alike((#[trigger] rest[j]).0, word) by {
                assert(rest[j] == pairs[j + 1]);
            }
        }
    }
}

/// What is known, or else another text.
pub open spec fn kept_or(known: Option<Seq<char>>, other: Seq<char>) -> Option<Seq<char>> {
    match known {
        Some(text) => Some(text),
        None => Some(other),
    }
}

/// A word that is a class tells the class, and one that is an ascendancy tells the ascendancy and its
/// class, as they are spelled by the game; what is known stays, and any other word tells nothing.
pub proof fn a_word_tells_class_and_ascendancy(id: IdentityTexts, word: Seq<char>, c: int, a: int)
    ensures
        is_class(word, c) && is_no_ascendancy(word) ==> with_word(id, word) == (IdentityTexts {
            class_name: kept_or(id.class_name, class_names()[c]),
            ..id
        }),
        is_no_class(word) && is_ascendancy(word, a) ==> with_word(id, word) == (IdentityTexts {
            ascendancy: kept_or(id.ascendancy, ascendancy_names()[a].0),
            class_name: kept_or(id.class_name, ascendancy_names()[a].1),
            ..id
        }),
        is_no_class(word) && is_no_ascendancy(word) ==> with_word(id, word) == id,
{
    assert(classes() =~= class_names());
    assert(ascendancies() =~= ascendancy_names());
    lemma_spelled(class_names(), word, c);
    lemma_spelled_pair(ascendancy_names(), word, a);
}

/// The words of a text tell in turn.
pub proof fn words_tell_in_turn(id: IdentityTexts, words: Seq<Seq<char>>, word: Seq<char>)
    ensures
        with_words(id, Seq::<Seq<char>>::empty()) == id,
        with_words(id, words.push(word)) == with_word(with_words(id, words), word),
{
    assert(words.push(word).drop_last() =~= words);
}

/// The lines of a text tell in turn, each by its words.
pub proof fn lines_tell_in_turn(id: IdentityTexts, lines: Seq<Seq<char>>, line: Seq<char>)
    ensures
        with_lines(id, Seq::<Seq<char>>::empty()) == id,
        with_lines(id, lines.push(line)) == with_words(
            with_lines(id, lines),
            letter_words_of(trimmed(line)),
        ),
{
    assert(lines.push(line).drop_last() =~= lines);
}

// ---------------------------------------------------------------- labels

/// The text that a match holds behind its label.
pub open spec fn told(found: Option<Seq<Option<Seq<char>>>>) -> Option<Seq<char>> {
    match found {
        Some(groups) => if groups.len() > 1 {
            groups[1]
        } else {
            None
        },
        None => None,
    }
}

/// A label tells the text behind it, without the white space around it.
pub proof fn a_label_tells_what_stands_behind_it(found: Option<Seq<Option<Seq<char>>>>)
    ensures
        captured_in(found) == told(found),
        told(found) matches Some(text) ==> labelled(found) == Some(trimmed(text)),
        told(found) is None ==> labelled(found) is None,
{
}

/// A level is a number from one to a hundred.
pub proof fn a_level_is_between_one_and_a_hundred(text: Seq<char>)
    ensures
        unsigned_in(text, 4_294_967_295) matches Some(n) ==> level_of(Some(text)) == if 1 <= n
            <= 100 {
            Some(n)
        } else {
            None
        },
        unsigned_in(text, 4_294_967_295) is None ==> level_of(Some(text)) is None,
        level_of(None) is None,
{
}

/// A line that holds a name, a level and a class tells each of them that is not known yet.
pub proof fn a_compact_line_tells_what_is_not_known(
    id: IdentityTexts,
    groups: Seq<Option<Seq<char>>>,
    name: Seq<char>,
    level: Seq<char>,
    rest: Seq<char>,
)
    requires
        groups.len() == 4,
        groups[1] == Some(name),
        groups[2] == Some(level),
        groups[3] == Some(rest),
    ensures
        with_compact(id, None) == id,
        with_compact(id, Some(groups)) == with_words(
            IdentityTexts {
                name: kept_or(id.name, trimmed(name)),
                level: if id.level is Some {
                    id.level
                } else {
                    level_of(Some(level))
                },
                ..id
            },
            letter_words_of(trimmed(rest)),
        ),
{
}

/// Labels tell first, then the line that holds name, level and class, then the words of all lines.
pub proof fn labels_tell_first(m: IdentityMatchTexts, input: Seq<char>)
    ensures
        ({
            let tell = |found: Option<Seq<Option<Seq<char>>>>|
                match told(found) {
                    Some(text) => Some(trimmed(text)),
                    None => None,
                };
            let first = IdentityTexts {
                name: tell(m.name),
                class_name: tell(m.class_name),
                ascendancy: tell(m.ascendancy),
                league: tell(m.league),
                level: level_of(told(m.level)),
            };
            identity_of(m, input) == with_lines(with_compact(first, m.compact), lines_of(input))
        }),
{
}

/// The pattern of a line with a label.
pub open spec fn label_pattern(label: Seq<char>, value: Seq<char>) -> Seq<char> {
    r"(?im)^\s*"@ + label + r"\s*[:\-]\s*("@ + value + r")\s*$"@
}

/// The matches are those of the patterns in the text, and an identity is told by the matches.
pub proof fn an_identity_is_told_by_its_matches(input: Seq<char>)
    ensures
        identity_matches_in(input) matches Some(m) ==> {
            &&& m.name == first_groups(
                label_pattern(r"(?:Character\s+)?Name"@, r"[A-Za-z][A-Za-z0-9_'\-]{1,39}"@),
                input,
            )
            &&& m.class_name == first_groups(
                label_pattern(r"Class"@, r"[A-Za-z][A-Za-z ]{2,30}"@),
                input,
            )
            &&& m.ascendancy == first_groups(
                label_pattern(r"Ascendancy"@, r"[A-Za-z][A-Za-z ]{2,30}"@),
                input,
            )
            &&& m.league == first_groups(
                label_pattern(r"League"@, r"[A-Za-z0-9][A-Za-z0-9 '\-]{1,40}"@),
                input,
            )
            &&& m.level == first_groups(r"(?im)^\s*Level\s*[:\-]?\s*([0-9]{1,3})\b"@, input)
            &&& m.compact == first_groups(
                r"(?im)^\s*([A-Za-z][A-Za-z0-9_'\-]{1,39})\s+(?:[-·|]\s*)?Level\s+([0-9]{1,3})\b\s*(.*)$"@,
                input,
            )
            &&& identity_in(input) == Ok::<IdentityTexts, IdentityError>(identity_of(m, input))
        },
        identity_matches_in(input) is None ==> identity_in(input) == Err::<
            IdentityTexts,
            IdentityError,
        >(IdentityError::Pattern),
{
}

/// Nothing is known where none of the five is.
pub proof fn nothing_known_is_nothing_told(id: IdentityTexts)
    ensures
        id == unknown_identity() <==> id.name is None && id.class_name is None && id.ascendancy is None
            && id.league is None && id.level is None,
{
}

} // verus!
