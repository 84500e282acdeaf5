//! What a further line does to the item that a text tells of.

use vstd::prelude::*;
use vstd::string::*;
use crate::bonuses::{all_fit, fits, BonusTotals};
use crate::chars::is_digit;
use crate::item_text::{
    bonuses_fit, bonuses_in, can_name, first_line_from, frame_in, item_fits, item_in, naming_lines, number_in,
    prefixed, property, property_in, property_of_line, stat_matches_in, total_fits, total_of,
    trimmed_lines, ItemContent, ItemTextError, StatMatchTexts,
};
use crate::number::{all_digits, decimal, decimal_is_digits, written_number_reads_back};
use crate::patterns::group_at;
use crate::text::{
    a_plain_text_is_one_line, begins_with, behind, filled, filled_lines, filled_lines_add,
    lines_follow_each_other, lines_of, trimmed, trimmed_end_of, trimming_keeps_the_lines,
    trimming_twice_is_trimming_once, without_char,
};

verus! {

// ---------------------------------------------------------------- numbers

proof fn lemma_without_char(s: Seq<char>, c: char)
    requires
        !s.contains(c),
    ensures
        without_char(s, c) == s,
    decreases s.len(),
{
    if s.len() > 0 {
        assert(s.contains(s.last()));
        assert forall|i: int| 0 <= i < s.drop_last().len() implies #[trigger] s.drop_last()[i]
            != c by {
            assert(s.contains(s[i]));
        }
        lemma_without_char(s.drop_last(), c);
        assert(s.drop_last().push(s.last()) =~= s);
    }
}

proof fn lemma_digits_are_plain(s: Seq<char>)
    requires
        all_digits(s),
    ensures
        trimmed(s) == s,
        trimmed_end_of(s, "%"@) == s,
        without_char(s, ',') == s,
        !s.contains('\n'),
{
    reveal_strlit("%");
    assert(is_digit(s[0]) && is_digit(s.last()));
    assert forall|i: int| 0 <= i < s.len() implies #[trigger] s[i] != ',' && s[i] != '\n' by {
        assert(is_digit(s[i]));
    }
    lemma_without_char(s, ',');
}

/// The digits of a number that fits are read as that number.
pub proof fn digits_are_read_as_their_number(n: nat)
    requires
        fits(n as int),
    ensures
        number_in(decimal(n)) == Some(n as int),
{
    decimal_is_digits(n);
    lemma_digits_are_plain(decimal(n));
    written_number_reads_back(n as int, i32::MIN as int, i32::MAX as int);
}

// ---------------------------------------------------------------- totals

/// The texts that the matches hold for the numbers they add.
pub open spec fn number_texts(matches: Seq<Seq<Option<Seq<char>>>>) -> Seq<Option<Seq<char>>> {
    matches.map_values(|groups: Seq<Option<Seq<char>>>| group_at(groups, 1))
}

proof fn lemma_same_total(a: Seq<Seq<Option<Seq<char>>>>, b: Seq<Seq<Option<Seq<char>>>>)
    requires
        number_texts(a) == number_texts(b),
    ensures
        total_of(a) == total_of(b),
    decreases a.len(),
{
    assert(a.len() == number_texts(a).len() && b.len() == number_texts(b).len());
    if a.len() > 0 {
        assert(number_texts(a.drop_last()) =~= number_texts(a).drop_last());
        assert(number_texts(b.drop_last()) =~= number_texts(b).drop_last());
        assert(number_texts(a).last() == group_at(a.last(), 1));
        assert(number_texts(b).last() == group_at(b.last(), 1));
        lemma_same_total(a.drop_last(), b.drop_last());
    }
}

/// Sums depend only on the texts that stand for the numbers.
pub proof fn the_same_numbers_add_up_alike(
    a: Seq<Seq<Option<Seq<char>>>>,
    b: Seq<Seq<Option<Seq<char>>>>,
)
    requires
        number_texts(a) == number_texts(b),
    ensures
        total_of(a) == total_of(b),
        total_fits(a) == total_fits(b),
{
    lemma_same_total(a, b);
    assert(a.len() == number_texts(a).len() && b.len() == number_texts(b).len());
    assert forall|n: int| 0 <= n <= a.len() implies total_of(#[trigger] a.take(n)) == total_of(
        b.take(n),
    ) by {
        assert(number_texts(a.take(n)) =~= number_texts(a).take(n));
        assert(number_texts(b.take(n)) =~= number_texts(b).take(n));
        lemma_same_total(a.take(n), b.take(n));
    }
    assert forall|n: int| 0 <= n <= b.len() implies total_of(#[trigger] b.take(n)) == total_of(
        a.take(n),
    ) by {
        assert(number_texts(a.take(n)) =~= number_texts(a).take(n));
        assert(number_texts(b.take(n)) =~= number_texts(b).take(n));
        lemma_same_total(a.take(n), b.take(n));
    }
}

/// One more match adds its number, and the sum fits on the way where it fitted before and still
/// fits at the end.
pub proof fn a_further_number_is_added(
    a: Seq<Seq<Option<Seq<char>>>>,
    b: Seq<Seq<Option<Seq<char>>>>,
    n: nat,
)
    requires
        fits(n as int),
        number_texts(b) == number_texts(a).push(Some(decimal(n))),
    ensures
        total_of(b) == total_of(a) + n,
        total_fits(a) && fits(total_of(a) + n) ==> total_fits(b),
{
    assert(a.len() == number_texts(a).len() && b.len() == number_texts(b).len());
    digits_are_read_as_their_number(n);
    let init = b.drop_last();
    assert(number_texts(init) =~= number_texts(b).drop_last());
    assert(number_texts(a).push(Some(decimal(n))).drop_last() =~= number_texts(a));
    assert(number_texts(b).last() == group_at(b.last(), 1));
    the_same_numbers_add_up_alike(a, init);
    if total_fits(a) && fits(total_of(a) + n) {
        assert forall|k: int| 0 <= k <= b.len() implies fits(
            total_of(#[trigger] b.take(k)),
        ) by {
            if k == b.len() {
                assert(b.take(k) =~= b);
            } else {
                assert(b.take(k) =~= init.take(k));
            }
        }
    }
}

// ---------------------------------------------------------------- the lines of an item

/// The line that tells the rarity, and the lines behind it that can hold a name.
pub open spec fn rarity_and_names(lines: Seq<Seq<char>>) -> Option<(Seq<char>, Seq<Seq<char>>)>
    decreases lines.len(),
{
    if lines.len() == 0 {
        None
    } else if begins_with(lines[0], "Rarity:"@) {
        Some((lines[0], naming_lines(lines.skip(1))))
    } else {
        rarity_and_names(lines.skip(1))
    }
}

proof fn lemma_rarity_from(lines: Seq<Seq<char>>, i: int)
    requires
        0 <= i <= lines.len(),
    ensures
        match first_line_from(lines, "Rarity:"@, i) {
            Some(k) => i <= k < lines.len() && rarity_and_names(lines.skip(i)) == Some(
                (lines[k], naming_lines(lines.skip(k + 1))),
            ),
            None => rarity_and_names(lines.skip(i)) is None,
        },
    decreases lines.len() - i,
{
    if i < lines.len() {
        lemma_rarity_from(lines, i + 1);
        assert(lines.skip(i).skip(1) =~= lines.skip(i + 1));
    }
}

proof fn lemma_filled_front(lines: Seq<Seq<char>>)
    requires
        lines.len() > 0,
    ensures
        filled_lines(lines) == if trimmed(lines[0]).len() == 0 {
            filled_lines(lines.skip(1))
        } else {
            seq![trimmed(lines[0])] + filled_lines(lines.skip(1))
        },
{
    let one = seq![lines[0]];
    assert(lines =~= one + lines.skip(1));
    filled_lines_add(one, lines.skip(1));
    assert(one.drop_last() =~= Seq::<Seq<char>>::empty());
    assert(filled_lines(Seq::<Seq<char>>::empty()) =~= Seq::<Seq<char>>::empty());
    assert(filled_lines(one) =~= if trimmed(lines[0]).len() == 0 {
        Seq::<Seq<char>>::empty()
    } else {
        seq![trimmed(lines[0])]
    });
    assert(Seq::<Seq<char>>::empty() + filled_lines(lines.skip(1)) =~= filled_lines(lines.skip(1)));
}

spec fn trimmed_all(lines: Seq<Seq<char>>) -> Seq<Seq<char>> {
    lines.map_values(|line: Seq<char>| trimmed(line))
}

proof fn lemma_names_are_filled(lines: Seq<Seq<char>>)
    ensures
        naming_lines(trimmed_all(lines)) == naming_lines(filled_lines(lines)),
    decreases lines.len(),
{
    if lines.len() > 0 {
        let init = lines.drop_last();
        lemma_names_are_filled(init);
        assert(trimmed_all(lines).drop_last() =~= trimmed_all(init));
        assert(trimmed_all(lines).last() == trimmed(lines.last()));
        if trimmed(lines.last()).len() > 0 {
            let all = filled_lines(lines);
            assert(all.drop_last() =~= filled_lines(init));
            assert(all.last() == trimmed(lines.last()));
        }
    }
}

proof fn lemma_filled_tell_all(lines: Seq<Seq<char>>, prefix: Seq<char>)
    requires
        prefix.len() > 0,
    ensures
        rarity_and_names(trimmed_all(lines)) == rarity_and_names(filled_lines(lines)),
        prefixed(trimmed_all(lines), prefix) == prefixed(filled_lines(lines), prefix),
        property_in(lines, prefix) == property_in(filled_lines(lines), prefix),
    decreases lines.len(),
{
    reveal_strlit("Rarity:");
    if lines.len() > 0 {
        let all = trimmed_all(lines);
        let rest = lines.skip(1);
        let line = trimmed(lines[0]);
        lemma_filled_tell_all(rest, prefix);
        lemma_filled_front(lines);
        lemma_names_are_filled(rest);
        assert(all.skip(1) =~= trimmed_all(rest));
        assert(all[0] == line);
        if line.len() > 0 {
            trimming_twice_is_trimming_once(lines[0]);
            assert(filled_lines(lines).skip(1) =~= filled_lines(rest));
        }
    } else {
        assert(trimmed_all(lines) =~= Seq::<Seq<char>>::empty());
    }
}

proof fn lemma_further_line(lines: Seq<Seq<char>>, line: Seq<char>, prefix: Seq<char>)
    ensures
        rarity_and_names(lines) matches Some((rarity, names)) ==> rarity_and_names(lines.push(line))
            == Some(
            (
                rarity,
                if can_name(line) {
                    names.push(line)
                } else {
                    names
                },
            ),
        ),
        behind(line, prefix) is None ==> prefixed(lines.push(line), prefix) == prefixed(
            lines,
            prefix,
        ),
        property_of_line(line, prefix) is None ==> property_in(lines.push(line), prefix)
            == property_in(lines, prefix),
    decreases lines.len(),
{
    let more = lines.push(line);
    if lines.len() > 0 {
        let rest = lines.skip(1);
        assert(more.skip(1) =~= rest.push(line));
        assert(more[0] == lines[0]);
        assert(rest.push(line).drop_last() =~= rest);
        lemma_further_line(rest, line, prefix);
    } else {
        assert(more[0] == line);
        assert(more.skip(1) =~= lines);
    }
}

// ---------------------------------------------------------------- resistance to all elements

/// The line that adds `n` percent resistance to every element.
pub open spec fn all_resistances_line(n: nat) -> Seq<char> {
    "+"@ + decimal(n) + "% to all Elemental Resistances"@
}

/// The text with a further line behind it.
pub open spec fn with_line(text: Seq<char>, line: Seq<char>) -> Seq<char> {
    text + seq!['\n'] + line
}

proof fn lemma_line_is_plain(n: nat)
    ensures
        filled(all_resistances_line(n)) == seq![all_resistances_line(n)],
        trimmed(all_resistances_line(n)) == all_resistances_line(n),
        all_resistances_line(n).len() > 0,
        all_resistances_line(n)[0] == '+',
{
    let line = all_resistances_line(n);
    let back = "% to all Elemental Resistances"@;
    reveal_strlit("+");
    reveal_strlit("% to all Elemental Resistances");
    decimal_is_digits(n);
    lemma_digits_are_plain(decimal(n));
    assert(back.last() == 's');
    assert(line.last() == 's');
    assert(line[0] == '+');
    assert forall|i: int| 0 <= i < back.len() implies #[trigger] back[i] != '\n' by {}
    assert forall|i: int| 0 <= i < line.len() implies #[trigger] line[i] != '\n' by {
        if 1 <= i < 1 + decimal(n).len() {
            assert(line[i] == decimal(n)[i - 1]);
            assert(decimal(n).contains(decimal(n)[i - 1]));
        } else if i >= 1 {
            assert(line[i] == back[i - 1 - decimal(n).len()]);
        }
    }
    a_plain_text_is_one_line(line);
}

proof fn lemma_text_with_line(text: Seq<char>, n: nat)
    ensures
        filled(trimmed(with_line(text, all_resistances_line(n)))) == filled(trimmed(text)).push(
            all_resistances_line(n),
        ),
        trimmed(with_line(text, all_resistances_line(n))).len() > 0,
{
    let line = all_resistances_line(n);
    let more = with_line(text, line);
    lemma_line_is_plain(n);
    trimming_keeps_the_lines(text);
    trimming_keeps_the_lines(more);
    lines_follow_each_other(text, line);
    assert(filled(text) + seq![line] =~= filled(text).push(line));
    if trimmed(more).len() == 0 {
        assert(lines_of(trimmed(more)) =~= Seq::<Seq<char>>::empty());
        assert(filled(trimmed(more)).len() == 0);
    }
}

proof fn lemma_property_stays(text: Seq<char>, n: nat, name: Seq<char>)
    requires
        name.len() > 0,
        name[0] != '+',
    ensures
        property(trimmed(with_line(text, all_resistances_line(n))), name) == property(
            trimmed(text),
            name,
        ),
{
    let line = all_resistances_line(n);
    let prefix = name + ":"@;
    lemma_line_is_plain(n);
    lemma_text_with_line(text, n);
    assert(prefix[0] == name[0]);
    assert(!begins_with(line, prefix)) by {
        if begins_with(line, prefix) {
            assert(line.subrange(0, prefix.len() as int)[0] == line[0]);
        }
    }
    lemma_filled_tell_all(lines_of(trimmed(text)), prefix);
    lemma_filled_tell_all(lines_of(trimmed(with_line(text, line))), prefix);
    lemma_further_line(filled(trimmed(text)), line, prefix);
}

/// Whether the statistics found in two texts are the same, but for one more resistance of `n`
/// percent to all elements in the second: each match is told by the text of its number.
pub open spec fn finds_further_resistance(a: StatMatchTexts, b: StatMatchTexts, n: nat) -> bool {
    &&& number_texts(b.life) == number_texts(a.life)
    &&& number_texts(b.mana) == number_texts(a.mana)
    &&& number_texts(b.energy_shield) == number_texts(a.energy_shield)
    &&& number_texts(b.fire_resistance) == number_texts(a.fire_resistance)
    &&& number_texts(b.cold_resistance) == number_texts(a.cold_resistance)
    &&& number_texts(b.lightning_resistance) == number_texts(a.lightning_resistance)
    &&& number_texts(b.chaos_resistance) == number_texts(a.chaos_resistance)
    &&& number_texts(b.strength) == number_texts(a.strength)
    &&& number_texts(b.dexterity) == number_texts(a.dexterity)
    &&& number_texts(b.intelligence) == number_texts(a.intelligence)
    &&& number_texts(b.all_resistances) == number_texts(a.all_resistances).push(Some(decimal(n)))
}

/// The totals with `n` more for each element.
pub open spec fn with_resistance(t: BonusTotals, n: nat) -> BonusTotals {
    BonusTotals {
        fire_resistance: t.fire_resistance + n,
        cold_resistance: t.cold_resistance + n,
        lightning_resistance: t.lightning_resistance + n,
        ..t
    }
}

/// Where an item has two lines that can hold a name, a further line names nothing: the item is the
/// same but for its text and what it adds.
pub proof fn a_further_line_keeps_the_frame(slot: Seq<char>, text: Seq<char>, n: nat)
    requires
        frame_in(slot, text) is Ok,
        rarity_and_names(filled(text)) matches Some((_, names)) && names.len() >= 2,
    ensures
        frame_in(slot, with_line(text, all_resistances_line(n))) == Ok::<ItemContent, ItemTextError>(
            ItemContent {
                raw_text: trimmed(with_line(text, all_resistances_line(n))),
                ..frame_in(slot, text)->Ok_0
            },
        ),
{
    let line = all_resistances_line(n);
    let more = with_line(text, line);
    let class = "Item Class:"@;
    reveal_strlit("Item Class:");
    lemma_line_is_plain(n);
    lemma_text_with_line(text, n);
    trimming_keeps_the_lines(text);
    assert(!begins_with(line, class)) by {
        if begins_with(line, class) {
            assert(line.subrange(0, class.len() as int)[0] == line[0]);
        }
    }
    lemma_filled_tell_all(lines_of(trimmed(text)), class);
    lemma_filled_tell_all(lines_of(trimmed(more)), class);
    lemma_further_line(filled(trimmed(text)), line, class);
    let old_lines = trimmed_lines(trimmed(text));
    let new_lines = trimmed_lines(trimmed(more));
    assert(old_lines =~= trimmed_all(lines_of(trimmed(text))));
    assert(new_lines =~= trimmed_all(lines_of(trimmed(more))));
    lemma_rarity_from(old_lines, 0);
    lemma_rarity_from(new_lines, 0);
    assert(old_lines.skip(0) =~= old_lines);
    assert(new_lines.skip(0) =~= new_lines);
}

proof fn lemma_properties_stay(text: Seq<char>, n: nat)
    ensures
        ({
            let more = with_line(text, all_resistances_line(n));
            &&& property(trimmed(more), "Energy Shield"@) == property(
                trimmed(text),
                "Energy Shield"@,
            )
            &&& property(trimmed(more), "Armour"@) == property(trimmed(text), "Armour"@)
            &&& property(trimmed(more), "Evasion Rating"@) == property(
                trimmed(text),
                "Evasion Rating"@,
            )
        }),
{
    reveal_strlit("Energy Shield");
    reveal_strlit("Armour");
    reveal_strlit("Evasion Rating");
    lemma_property_stays(text, n, "Energy Shield"@);
    lemma_property_stays(text, n, "Armour"@);
    lemma_property_stays(text, n, "Evasion Rating"@);
}

proof fn lemma_patterns_stay_accepted(a: Seq<char>, b: Seq<char>)
    ensures
        stat_matches_in(a) is Some == stat_matches_in(b) is Some,
{
}

proof fn lemma_slot_does_not_matter(slot: Seq<char>, text: Seq<char>)
    ensures
        frame_in(Seq::empty(), text) is Ok == frame_in(slot, text) is Ok,
{
}

proof fn lemma_further_bonuses(
    old_text: Seq<char>,
    new_text: Seq<char>,
    a: StatMatchTexts,
    b: StatMatchTexts,
    n: nat,
)
    requires
        fits(n as int),
        finds_further_resistance(a, b, n),
        property(new_text, "Energy Shield"@) == property(old_text, "Energy Shield"@),
        property(new_text, "Armour"@) == property(old_text, "Armour"@),
        property(new_text, "Evasion Rating"@) == property(old_text, "Evasion Rating"@),
    ensures
        bonuses_in(new_text, b) == with_resistance(bonuses_in(old_text, a), n),
        bonuses_fit(old_text, a) && fits(total_of(a.all_resistances) + n) && all_fit(
            with_resistance(bonuses_in(old_text, a), n),
        ) ==> bonuses_fit(new_text, b),
{
    the_same_numbers_add_up_alike(a.life, b.life);
    the_same_numbers_add_up_alike(a.mana, b.mana);
    the_same_numbers_add_up_alike(a.energy_shield, b.energy_shield);
    the_same_numbers_add_up_alike(a.fire_resistance, b.fire_resistance);
    the_same_numbers_add_up_alike(a.cold_resistance, b.cold_resistance);
    the_same_numbers_add_up_alike(a.lightning_resistance, b.lightning_resistance);
    the_same_numbers_add_up_alike(a.chaos_resistance, b.chaos_resistance);
    the_same_numbers_add_up_alike(a.strength, b.strength);
    the_same_numbers_add_up_alike(a.dexterity, b.dexterity);
    the_same_numbers_add_up_alike(a.intelligence, b.intelligence);
    a_further_number_is_added(a.all_resistances, b.all_resistances, n);
}

/// A line that adds `n` percent to all elemental resistances raises the resistances to fire, cold
/// and lightning by `n` and changes nothing else of an item that has two lines that can hold a name,
/// where the patterns find in the longer text what they found before and the number of that line.
pub proof fn a_resistance_to_all_elements_is_added(slot: Seq<char>, text: Seq<char>, n: nat)
    requires
        item_in(slot, text) is Ok,
        rarity_and_names(filled(text)) matches Some((_, names)) && names.len() >= 2,
        fits(n as int),
        finds_further_resistance(
            stat_matches_in(trimmed(text))->0,
            stat_matches_in(trimmed(with_line(text, all_resistances_line(n))))->0,
            n,
        ),
    ensures
        item_in(slot, with_line(text, all_resistances_line(n))) == Ok::<ItemContent, ItemTextError>(
            ItemContent {
                bonuses: with_resistance(item_in(slot, text)->Ok_0.bonuses, n),
                raw_text: trimmed(with_line(text, all_resistances_line(n))),
                ..item_in(slot, text)->Ok_0
            },
        ),
        item_fits(text) && fits(total_of(stat_matches_in(trimmed(text))->0.all_resistances) + n)
            && all_fit(with_resistance(item_in(slot, text)->Ok_0.bonuses, n)) ==> item_fits(
            with_line(text, all_resistances_line(n)),
        ),
{
    let more = with_line(text, all_resistances_line(n));
    let a = stat_matches_in(trimmed(text))->0;
    let b = stat_matches_in(trimmed(more))->0;
    a_further_line_keeps_the_frame(slot, text, n);
    lemma_properties_stay(text, n);
    lemma_patterns_stay_accepted(trimmed(text), trimmed(more));
    lemma_further_bonuses(trimmed(text), trimmed(more), a, b, n);
    lemma_slot_does_not_matter(slot, text);
}

} // verus!
