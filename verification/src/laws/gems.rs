//! What is read from the text that the game copies for a gem.

use vstd::prelude::*;
use vstd::string::*;
use crate::chars::is_white;
use crate::gem_text::{gem_in, separator_from, GemContent, GemTextError};
use crate::item_text::number_in;
use crate::laws::items::{
    copied_lines, is_first_with, no_line_is_found, none_with, tells_a_name, the_first_label_decides,
    the_first_line_is_found,
};
use crate::laws::texts::{
    a_text_begins_with_its_front, a_text_holds_its_parts, all_white,
    the_first_word_ends_at_white_space, what_a_text_holds_is_a_part,
    white_space_at_the_ends_is_taken_off,
};
use crate::number::unsigned_in;
use crate::text::{holds, lines_of, split_at_each, trimmed};

verus! {

/// Whether the gem that is read from a text is as told, where it is one.
pub open spec fn reads_gem(
    group: Seq<char>,
    input: Seq<char>,
    told: spec_fn(GemContent) -> bool,
) -> bool {
    gem_in(group, input) matches Ok(gem) ==> told(gem)
}

proof fn lemma_lines_of_text(input: Seq<char>)
    ensures
        copied_lines(input).len() > 0 ==> trimmed(input).len() > 0,
{
    if trimmed(input).len() == 0 {
        assert(lines_of(trimmed(input)) =~= Seq::<Seq<char>>::empty());
    }
}

/// A text is a gem where a line that tells a name follows directly on the first line that tells the
/// rarity, and that name is the gem's.
pub proof fn a_gem_is_named_behind_its_rarity(group: Seq<char>, input: Seq<char>, k: int)
    ensures
        is_first_with(copied_lines(input), "Rarity:"@, k) && k + 1 < copied_lines(input).len()
            && tells_a_name(copied_lines(input)[k + 1]) ==> (gem_in(group, input) matches Ok(
            gem,
        ) && gem.name == copied_lines(input)[k + 1] && gem.group == trimmed(group) && gem.raw_text
            == trimmed(input)),
        is_first_with(copied_lines(input), "Rarity:"@, k) && !(k + 1 < copied_lines(input).len()
            && tells_a_name(copied_lines(input)[k + 1])) ==> gem_in(group, input) == Err::<
            GemContent,
            GemTextError,
        >(GemTextError::NoName),
        trimmed(input).len() > 0 && none_with(copied_lines(input), "Rarity:"@) ==> gem_in(
            group,
            input,
        ) == Err::<GemContent, GemTextError>(GemTextError::NoRarity),
        trimmed(input).len() == 0 ==> gem_in(group, input) == Err::<GemContent, GemTextError>(
            GemTextError::NoText,
        ),
{
    let lines = copied_lines(input);
    lemma_lines_of_text(input);
    if is_first_with(lines, "Rarity:"@, k) {
        the_first_line_is_found(lines, "Rarity:"@, 0, k);
    }
    if none_with(lines, "Rarity:"@) {
        no_line_is_found(lines, "Rarity:"@, 0);
    }
}

/// The level of a gem is the number in the first word behind the first label of a level, whatever
/// other levels the text tells; without a label it is one, and so it is where no number follows.
pub proof fn the_first_level_is_the_gems(
    group: Seq<char>,
    input: Seq<char>,
    k: int,
    pad: Seq<char>,
    word: Seq<char>,
    rest: Seq<char>,
)
    requires
        all_white(pad),
        word.len() > 0,
        forall|i: int| 0 <= i < word.len() ==> !is_white(#[trigger] word[i]),
        rest.len() > 0 ==> is_white(rest[0]) && !is_white(rest.last()),
    ensures
        is_first_with(copied_lines(input), "Level:"@, k) && copied_lines(input)[k] == "Level:"@ + (
        pad + word + rest) ==> reads_gem(
            group,
            input,
            |gem: GemContent|
                gem.level == match unsigned_in(word, 4_294_967_295) {
                    Some(n) => n,
                    None => 1,
                },
        ),
        is_first_with(copied_lines(input), "Level:"@, k) && copied_lines(input)[k] == "Level:"@
            ==> reads_gem(group, input, |gem: GemContent| gem.level == 1),
        none_with(copied_lines(input), "Level:"@) ==> reads_gem(
            group,
            input,
            |gem: GemContent| gem.level == 1,
        ),
{
    let lines = copied_lines(input);
    the_first_label_decides(lines, "Level:"@, k);
    if is_first_with(lines, "Level:"@, k) && lines[k] == "Level:"@ {
        let none = Seq::<char>::empty();
        assert(lines[k].skip("Level:"@.len() as int) =~= none);
        white_space_at_the_ends_is_taken_off(none, none, none);
        assert(none + none + none =~= none);
    }
    if is_first_with(lines, "Level:"@, k) && lines[k] == "Level:"@ + (pad + word + rest) {
        let value = pad + word + rest;
        let none = Seq::<char>::empty();
        a_text_begins_with_its_front("Level:"@, value);
        assert(lines[k].skip("Level:"@.len() as int) =~= value);
        assert(!is_white(word[0]) && !is_white(word[word.len() - 1]));
        assert((word + rest)[0] == word[0]);
        assert((word + rest).last() == if rest.len() > 0 {
            rest.last()
        } else {
            word.last()
        });
        white_space_at_the_ends_is_taken_off(pad, word + rest, none);
        assert(pad + (word + rest) + none =~= value);
        the_first_word_ends_at_white_space(none, word, rest);
        assert(none + word + rest =~= word + rest);
    }
}

/// The quality of a gem is the number behind the first label of a quality; without a label it is
/// zero, and so it is where no number follows.
pub proof fn the_first_quality_is_the_gems(group: Seq<char>, input: Seq<char>, k: int)
    ensures
        is_first_with(copied_lines(input), "Quality:"@, k) ==> reads_gem(
            group,
            input,
            |gem: GemContent|
                gem.quality == match number_in(
                    trimmed(copied_lines(input)[k].skip("Quality:"@.len() as int)),
                ) {
                    Some(n) => n,
                    None => 0,
                },
        ),
        none_with(copied_lines(input), "Quality:"@) ==> reads_gem(
            group,
            input,
            |gem: GemContent| gem.quality == 0,
        ),
{
    the_first_label_decides(copied_lines(input), "Quality:"@, k);
}

/// Whether line `k` is the first row of dashes.
pub open spec fn is_first_row(lines: Seq<Seq<char>>, k: int) -> bool {
    &&& 0 <= k < lines.len()
    &&& lines[k] == "--------"@
    &&& forall|j: int| 0 <= j < k ==> #[trigger] lines[j] != "--------"@
}

proof fn lemma_first_row(lines: Seq<Seq<char>>, i: int, k: int)
    requires
        is_first_row(lines, k),
        0 <= i <= k,
    ensures
        separator_from(lines, i) == Some(k),
    decreases k - i,
{
    if i < k {
        assert(lines[i] != "--------"@);
        lemma_first_row(lines, i + 1, k);
    }
}

proof fn lemma_no_row(lines: Seq<Seq<char>>, i: int)
    requires
        forall|j: int| 0 <= j < lines.len() ==> #[trigger] lines[j] != "--------"@,
        0 <= i,
    ensures
        separator_from(lines, i) is None,
    decreases lines.len() - i,
{
    if i < lines.len() {
        assert(lines[i] != "--------"@);
        lemma_no_row(lines, i + 1);
    }
}

/// The tags of a gem are the trimmed parts between the commas of the line behind the first row of
/// dashes, whatever lines follow. Without a comma there, without such a line and without a row of
/// dashes there are no tags.
pub proof fn tags_stand_behind_the_first_row(group: Seq<char>, input: Seq<char>, k: int)
    ensures
        is_first_row(copied_lines(input), k) && k + 1 < copied_lines(input).len() && copied_lines(
            input,
        )[k + 1].contains(',') ==> reads_gem(
            group,
            input,
            |gem: GemContent|
                {
                    let parts = split_at_each(copied_lines(input)[k + 1], ',');
                    gem.tags.len() == parts.len() && forall|i: int|
                        0 <= i < parts.len() ==> #[trigger] gem.tags[i] == trimmed(parts[i])
                },
        ),
        is_first_row(copied_lines(input), k) && !(k + 1 < copied_lines(input).len() && copied_lines(
            input,
        )[k + 1].contains(',')) ==> reads_gem(
            group,
            input,
            |gem: GemContent| gem.tags.len() == 0,
        ),
        (forall|j: int|
            0 <= j < copied_lines(input).len() ==> #[trigger] copied_lines(input)[j]
                != "--------"@) ==> reads_gem(group, input, |gem: GemContent| gem.tags.len() == 0),
{
    let lines = copied_lines(input);
    reveal_strlit(",");
    if is_first_row(lines, k) {
        lemma_first_row(lines, 0, k);
        if k + 1 < lines.len() {
            lemma_comma(lines[k + 1]);
        }
    }
    if forall|j: int| 0 <= j < lines.len() ==> #[trigger] lines[j] != "--------"@ {
        lemma_no_row(lines, 0);
    }
}

proof fn lemma_comma(line: Seq<char>)
    ensures
        holds(line, ","@) <==> line.contains(','),
{
    reveal_strlit(",");
    if line.contains(',') {
        let k = choose|k: int| 0 <= k < line.len() && line[k] == ',';
        assert(line =~= line.take(k) + ","@ + line.skip(k + 1));
        a_text_holds_its_parts(line.take(k), ","@, line.skip(k + 1));
    }
    if holds(line, ","@) {
        what_a_text_holds_is_a_part(line, ","@);
        let (front, back) = choose|front: Seq<char>, back: Seq<char>|
            line == #[trigger] (front + ","@ + back);
        assert(line[front.len() as int] == ',');
    }
}

} // verus!
