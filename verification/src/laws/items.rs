//! What is read from the text that the game copies for an item, and what items add together.

use vstd::prelude::*;
use vstd::string::*;
use crate::bonuses::{all_fit, no_bonuses, plus, sum_of, sums_fit, BonusTotals};
use crate::chars::is_white;
use crate::character::{bonus_list, equipment_total, CapturedItem};
use crate::item_text::{
    bonuses_in, first_line_from, frame_in, item_fits, item_in, naming_lines, number_in, prefixed,
    property, property_in, property_of_line, stat_matches_in, total_fits, total_of, trimmed_lines,
    ItemContent, ItemTextError, StatMatchTexts,
};
use crate::laws::texts::{
    a_text_begins_with_its_front, all_copies_of_a_prefix_are_taken_off, all_white,
    the_first_word_ends_at_white_space,
};
use crate::patterns::all_groups;
use crate::text::{begins_with, first_word_of, lines_of, lowered, trimmed, without_prefixes};

verus! {

// ---------------------------------------------------------------- lines

/// The lines of the text of an item or a gem: without the white space around the text and around
/// each line.
pub open spec fn copied_lines(input: Seq<char>) -> Seq<Seq<char>> {
    trimmed_lines(trimmed(input))
}

/// Whether line `k` is the first that begins with the prefix.
pub open spec fn is_first_with(lines: Seq<Seq<char>>, prefix: Seq<char>, k: int) -> bool {
    &&& 0 <= k < lines.len()
    &&& begins_with(lines[k], prefix)
    &&& forall|j: int| 0 <= j < k ==> !begins_with(#[trigger] lines[j], prefix)
}

/// Whether no line begins with the prefix.
pub open spec fn none_with(lines: Seq<Seq<char>>, prefix: Seq<char>) -> bool {
    forall|j: int| 0 <= j < lines.len() ==> !begins_with(#[trigger] lines[j], prefix)
}

/// The first line with a prefix is the one that is found.
pub proof fn the_first_line_is_found(lines: Seq<Seq<char>>, prefix: Seq<char>, i: int, k: int)
    requires
        is_first_with(lines, prefix, k),
        0 <= i <= k,
    ensures
        first_line_from(lines, prefix, i) == Some(k),
    decreases k - i,
{
    if i < k {
        the_first_line_is_found(lines, prefix, i + 1, k);
    }
}

/// No line is found where none has the prefix.
pub proof fn no_line_is_found(lines: Seq<Seq<char>>, prefix: Seq<char>, i: int)
    requires
        none_with(lines, prefix),
        0 <= i,
    ensures
        first_line_from(lines, prefix, i) is None,
    decreases lines.len() - i,
{
    if i < lines.len() {
        no_line_is_found(lines, prefix, i + 1);
    }
}

/// What stands behind a label is taken from the first line with the label, and from no other.
pub proof fn the_first_label_decides(lines: Seq<Seq<char>>, prefix: Seq<char>, k: int)
    ensures
        is_first_with(lines, prefix, k) ==> prefixed(lines, prefix) == Some(
            trimmed(lines[k].skip(prefix.len() as int)),
        ),
        none_with(lines, prefix) ==> prefixed(lines, prefix) is None,
    decreases lines.len(),
{
    if lines.len() > 0 {
        let rest = lines.skip(1);
        the_first_label_decides(rest, prefix, k - 1);
        assert forall|j: int| 0 <= j < rest.len() implies rest[j] == #[trigger] lines[j + 1] by {}
        if is_first_with(lines, prefix, k) && k > 0 {
            assert(!begins_with(lines[0], prefix));
            assert(is_first_with(rest, prefix, k - 1)) by {
                assert forall|j: int| 0 <= j < k - 1 implies !begins_with(
                    #[trigger] rest[j],
                    prefix,
                ) by {
                    assert(rest[j] == lines[j + 1]);
                }
            }
        }
        if none_with(lines, prefix) {
            assert(!begins_with(lines[0], prefix));
            assert forall|j: int| 0 <= j < rest.len() implies !begins_with(
                #[trigger] rest[j],
                prefix,
            ) by {
                assert(rest[j] == lines[j + 1]);
            }
        }
    }
}

// ---------------------------------------------------------------- names

/// Whether a line tells a name: it is neither empty nor a row of dashes.
pub open spec fn tells_a_name(line: Seq<char>) -> bool {
    line.len() > 0 && line != "--------"@
}

/// Whether line `j` is the first from line `from` on that tells a name.
pub open spec fn is_next_name(lines: Seq<Seq<char>>, from: int, j: int) -> bool {
    &&& 0 <= from <= j < lines.len()
    &&& tells_a_name(lines[j])
    &&& forall|i: int| from <= i < j ==> !tells_a_name(#[trigger] lines[i])
}

/// Whether no line from line `from` on tells a name.
pub open spec fn no_more_names(lines: Seq<Seq<char>>, from: int) -> bool {
    forall|i: int| from <= i < lines.len() ==> !tells_a_name(#[trigger] lines[i])
}

proof fn lemma_names_add(a: Seq<Seq<char>>, b: Seq<Seq<char>>)
    ensures
        naming_lines(a + b) == naming_lines(a) + naming_lines(b),
    decreases b.len(),
{
    if b.len() == 0 {
        assert(a + b =~= a);
        assert(naming_lines(a) + naming_lines(b) =~= naming_lines(a));
    } else {
        lemma_names_add(a, b.drop_last());
        assert((a + b).drop_last() =~= a + b.drop_last());
        assert((a + b).last() == b.last());
        assert(naming_lines(a + b) =~= naming_lines(a) + naming_lines(b));
    }
}

proof fn lemma_no_names(lines: Seq<Seq<char>>)
    requires
        forall|i: int| 0 <= i < lines.len() ==> !tells_a_name(#[trigger] lines[i]),
    ensures
        naming_lines(lines).len() == 0,
    decreases lines.len(),
{
    if lines.len() > 0 {
        assert(!tells_a_name(lines[lines.len() - 1]));
        assert forall|i: int| 0 <= i < lines.drop_last().len() implies !tells_a_name(
            #[trigger] lines.drop_last()[i],
        ) by {
            assert(lines.drop_last()[i] == lines[i]);
        }
        lemma_no_names(lines.drop_last());
    }
}

proof fn lemma_next_name(lines: Seq<Seq<char>>, from: int, j: int)
    requires
        is_next_name(lines, from, j),
    ensures
        naming_lines(lines.skip(from)) == seq![lines[j]] + naming_lines(lines.skip(j + 1)),
{
    let quiet = lines.subrange(from, j);
    let one = seq![lines[j]];
    let rest = lines.skip(j + 1);
    assert forall|i: int| 0 <= i < quiet.len() implies !tells_a_name(#[trigger] quiet[i]) by {
        assert(quiet[i] == lines[from + i]);
    }
    lemma_no_names(quiet);
    assert(lines.skip(from) =~= quiet + (one + rest));
    lemma_names_add(quiet, one + rest);
    lemma_names_add(one, rest);
    assert(one.drop_last() =~= Seq::<Seq<char>>::empty());
    assert(naming_lines(one.drop_last()) =~= Seq::<Seq<char>>::empty());
    assert(naming_lines(one) =~= one);
    assert(naming_lines(quiet) =~= Seq::<Seq<char>>::empty());
    assert(naming_lines(quiet) + (one + naming_lines(rest)) =~= one + naming_lines(rest));
}

proof fn lemma_no_more_names(lines: Seq<Seq<char>>, from: int)
    requires
        0 <= from <= lines.len(),
        no_more_names(lines, from),
    ensures
        naming_lines(lines.skip(from)).len() == 0,
{
    assert forall|i: int| 0 <= i < lines.skip(from).len() implies !tells_a_name(
        #[trigger] lines.skip(from)[i],
    ) by {
        assert(lines.skip(from)[i] == lines[from + i]);
    }
    lemma_no_names(lines.skip(from));
}

/// Whether the item that is read from a text, with or without what it adds, is as told.
pub open spec fn reads_item(
    slot: Seq<char>,
    input: Seq<char>,
    told: spec_fn(ItemContent) -> bool,
) -> bool {
    &&& frame_in(slot, input) matches Ok(item) && told(item)
    &&& item_in(slot, input) matches Ok(item) ==> told(item)
}

/// The name of an item is the first line behind the rarity that tells one.
pub proof fn the_first_name_is_the_items(slot: Seq<char>, input: Seq<char>, k: int, j: int)
    requires
        is_first_with(copied_lines(input), "Rarity:"@, k),
    ensures
        is_next_name(copied_lines(input), k + 1, j) ==> reads_item(
            slot,
            input,
            |item: ItemContent| item.name == copied_lines(input)[j],
        ),
        no_more_names(copied_lines(input), k + 1) ==> reads_item(
            slot,
            input,
            |item: ItemContent| item.name == "Unknown item"@,
        ),
{
    let lines = copied_lines(input);
    lemma_lines_of_text(input);
    the_first_line_is_found(lines, "Rarity:"@, 0, k);
    if is_next_name(lines, k + 1, j) {
        lemma_next_name(lines, k + 1, j);
    }
    if no_more_names(lines, k + 1) {
        lemma_no_more_names(lines, k + 1);
    }
}

proof fn lemma_lines_of_text(input: Seq<char>)
    ensures
        copied_lines(input).len() > 0 ==> trimmed(input).len() > 0,
{
    if trimmed(input).len() == 0 {
        assert(lines_of(trimmed(input)) =~= Seq::<Seq<char>>::empty());
    }
}

/// The rarity that the text of an item tells.
pub open spec fn told_rarity(input: Seq<char>, k: int) -> Seq<char> {
    trimmed(without_prefixes(copied_lines(input)[k], "Rarity:"@))
}

/// An item that is neither rare nor unique nor a relic is its own base, however many lines follow.
pub proof fn a_plain_item_is_its_own_base(slot: Seq<char>, input: Seq<char>, k: int)
    requires
        is_first_with(copied_lines(input), "Rarity:"@, k),
        lowered(told_rarity(input, k)) != "rare"@,
        lowered(told_rarity(input, k)) != "unique"@,
        lowered(told_rarity(input, k)) != "relic"@,
    ensures
        reads_item(slot, input, |item: ItemContent| item.base_type == item.name),
{
    lemma_lines_of_text(input);
    the_first_line_is_found(copied_lines(input), "Rarity:"@, 0, k);
}

/// The base of a rare, unique or relic item is the second line behind the rarity that tells a name,
/// and unknown where there is none.
pub proof fn a_named_item_has_its_base_behind_its_name(
    slot: Seq<char>,
    input: Seq<char>,
    k: int,
    j: int,
    b: int,
)
    requires
        is_first_with(copied_lines(input), "Rarity:"@, k),
        lowered(told_rarity(input, k)) == "rare"@ || lowered(told_rarity(input, k)) == "unique"@
            || lowered(told_rarity(input, k)) == "relic"@,
    ensures
        is_next_name(copied_lines(input), k + 1, j) && is_next_name(copied_lines(input), j + 1, b)
            ==> reads_item(
            slot,
            input,
            |item: ItemContent| item.base_type == copied_lines(input)[b],
        ),
        is_next_name(copied_lines(input), k + 1, j) && no_more_names(copied_lines(input), j + 1)
            ==> reads_item(slot, input, |item: ItemContent| item.base_type.len() == 0),
        no_more_names(copied_lines(input), k + 1) ==> reads_item(
            slot,
            input,
            |item: ItemContent| item.base_type.len() == 0,
        ),
{
    let lines = copied_lines(input);
    lemma_lines_of_text(input);
    the_first_line_is_found(lines, "Rarity:"@, 0, k);
    if is_next_name(lines, k + 1, j) {
        lemma_next_name(lines, k + 1, j);
        if is_next_name(lines, j + 1, b) {
            lemma_next_name(lines, j + 1, b);
        }
        if no_more_names(lines, j + 1) {
            lemma_no_more_names(lines, j + 1);
        }
    }
    if no_more_names(lines, k + 1) {
        lemma_no_more_names(lines, k + 1);
    }
}

/// Rarity and class are told behind their labels, the slot by the one who captures the item, and the
/// whole text is kept; white space around them does not count.
pub proof fn an_item_keeps_what_its_labels_tell(
    slot: Seq<char>,
    input: Seq<char>,
    k: int,
    rarity: Seq<char>,
    c: int,
)
    requires
        is_first_with(copied_lines(input), "Rarity:"@, k),
        copied_lines(input)[k] == "Rarity:"@ + rarity,
        !begins_with(rarity, "Rarity:"@),
    ensures
        reads_item(slot, input, |item: ItemContent| item.rarity == trimmed(rarity)),
        reads_item(slot, input, |item: ItemContent| item.slot == trimmed(slot)),
        reads_item(slot, input, |item: ItemContent| item.raw_text == trimmed(input)),
        is_first_with(copied_lines(input), "Item Class:"@, c) ==> reads_item(
            slot,
            input,
            |item: ItemContent|
                item.item_class == trimmed(copied_lines(input)[c].skip("Item Class:"@.len() as int)),
        ),
        none_with(copied_lines(input), "Item Class:"@) ==> reads_item(
            slot,
            input,
            |item: ItemContent| item.item_class.len() == 0,
        ),
{
    let lines = copied_lines(input);
    reveal_strlit("Rarity:");
    lemma_lines_of_text(input);
    the_first_line_is_found(lines, "Rarity:"@, 0, k);
    the_first_label_decides(lines, "Item Class:"@, c);
    all_copies_of_a_prefix_are_taken_off("Rarity:"@, rarity);
}

/// A text is an item unless nothing but white space was given, no line tells the rarity, or a pattern
/// is refused.
pub proof fn what_is_no_item(slot: Seq<char>, input: Seq<char>, k: int)
    ensures
        trimmed(input).len() == 0 ==> item_in(slot, input) == Err::<ItemContent, ItemTextError>(
            ItemTextError::NoText,
        ),
        trimmed(input).len() > 0 && none_with(copied_lines(input), "Rarity:"@) ==> item_in(
            slot,
            input,
        ) == Err::<ItemContent, ItemTextError>(ItemTextError::NoRarity),
        is_first_with(copied_lines(input), "Rarity:"@, k) ==> item_in(slot, input) is Ok || item_in(
            slot,
            input,
        ) == Err::<ItemContent, ItemTextError>(ItemTextError::Pattern),
        is_first_with(copied_lines(input), "Rarity:"@, k) && stat_matches_in(trimmed(input)) is Some
            ==> item_in(slot, input) is Ok,
{
    let lines = copied_lines(input);
    lemma_lines_of_text(input);
    if is_first_with(lines, "Rarity:"@, k) {
        the_first_line_is_found(lines, "Rarity:"@, 0, k);
    }
    if none_with(lines, "Rarity:"@) {
        no_line_is_found(lines, "Rarity:"@, 0);
    }
}

// ---------------------------------------------------------------- statistics

/// What the patterns of the statistics find in a text.
pub open spec fn found_statistics(text: Seq<char>) -> StatMatchTexts {
    StatMatchTexts {
        life: all_groups(r"(?mi)^\+([0-9,]+) to maximum Life(?:\s|$)"@, text),
        mana: all_groups(r"(?mi)^\+([0-9,]+) to maximum Mana(?:\s|$)"@, text),
        energy_shield: all_groups(r"(?mi)^\+([0-9,]+) to maximum Energy Shield(?:\s|$)"@, text),
        fire_resistance: all_groups(r"(?mi)^\+?(-?[0-9,]+)% to Fire Resistance"@, text),
        cold_resistance: all_groups(r"(?mi)^\+?(-?[0-9,]+)% to Cold Resistance"@, text),
        lightning_resistance: all_groups(r"(?mi)^\+?(-?[0-9,]+)% to Lightning Resistance"@, text),
        chaos_resistance: all_groups(r"(?mi)^\+?(-?[0-9,]+)% to Chaos Resistance"@, text),
        strength: all_groups(r"(?mi)^\+([0-9,]+) to Strength(?:\s|$)"@, text),
        dexterity: all_groups(r"(?mi)^\+([0-9,]+) to Dexterity(?:\s|$)"@, text),
        intelligence: all_groups(r"(?mi)^\+([0-9,]+) to Intelligence(?:\s|$)"@, text),
        all_resistances: all_groups(r"(?mi)^\+?(-?[0-9,]+)% to all Elemental Resistances"@, text),
    }
}

/// What an item adds is told by what the patterns of the statistics find in its text.
pub proof fn an_item_adds_what_its_statistics_tell(slot: Seq<char>, input: Seq<char>)
    ensures
        item_in(slot, input) matches Ok(item) ==> item.bonuses == bonuses_in(
            trimmed(input),
            found_statistics(trimmed(input)),
        ),
{
}

/// The text of the number in a match, and the number.
pub open spec fn tells_number(groups: Seq<Option<Seq<char>>>, n: int) -> bool {
    groups.len() > 1 && groups[1] is Some && number_in(groups[1]->0) == Some(n)
}

proof fn lemma_total(matches: Seq<Seq<Option<Seq<char>>>>, groups: Seq<Option<Seq<char>>>, n: int)
    requires
        tells_number(groups, n),
    ensures
        total_of(matches.push(groups)) == total_of(matches) + n,
{
    assert(matches.push(groups).drop_last() =~= matches);
}

/// A match whose number cannot be read adds nothing to its sum.
pub proof fn a_match_without_a_number_adds_nothing(
    matches: Seq<Seq<Option<Seq<char>>>>,
    groups: Seq<Option<Seq<char>>>,
)
    requires
        groups.len() <= 1 || groups[1] is None || number_in(groups[1]->0) is None,
    ensures
        total_of(matches.push(groups)) == total_of(matches),
{
    assert(matches.push(groups).drop_last() =~= matches);
}

/// A further match adds its number to its own statistic, and one for all elements to each element;
/// nothing else changes.
pub proof fn a_match_adds_its_number(
    text: Seq<char>,
    m: StatMatchTexts,
    groups: Seq<Option<Seq<char>>>,
    n: int,
)
    requires
        tells_number(groups, n),
    ensures
        ({
            let b = bonuses_in(text, m);
            &&& bonuses_in(text, StatMatchTexts { life: m.life.push(groups), ..m })
                == (BonusTotals { life: b.life + n, ..b })
            &&& bonuses_in(text, StatMatchTexts { mana: m.mana.push(groups), ..m })
                == (BonusTotals { mana: b.mana + n, ..b })
            &&& bonuses_in(
                text,
                StatMatchTexts { energy_shield: m.energy_shield.push(groups), ..m },
            ) == (BonusTotals { energy_shield: b.energy_shield + n, ..b })
            &&& bonuses_in(text, StatMatchTexts { strength: m.strength.push(groups), ..m })
                == (BonusTotals { strength: b.strength + n, ..b })
            &&& bonuses_in(text, StatMatchTexts { dexterity: m.dexterity.push(groups), ..m })
                == (BonusTotals { dexterity: b.dexterity + n, ..b })
            &&& bonuses_in(text, StatMatchTexts { intelligence: m.intelligence.push(groups), ..m })
                == (BonusTotals { intelligence: b.intelligence + n, ..b })
        }),
{
    lemma_total(m.life, groups, n);
    lemma_total(m.mana, groups, n);
    lemma_total(m.energy_shield, groups, n);
    lemma_total(m.strength, groups, n);
    lemma_total(m.dexterity, groups, n);
    lemma_total(m.intelligence, groups, n);
}

/// A further resistance adds its number to the resistance to its own element, and one for all
/// elements to fire, cold and lightning; nothing else changes.
pub proof fn a_resistance_adds_its_number(
    text: Seq<char>,
    m: StatMatchTexts,
    groups: Seq<Option<Seq<char>>>,
    n: int,
)
    requires
        tells_number(groups, n),
    ensures
        ({
            let b = bonuses_in(text, m);
            &&& bonuses_in(
                text,
                StatMatchTexts { fire_resistance: m.fire_resistance.push(groups), ..m },
            ) == (BonusTotals { fire_resistance: b.fire_resistance + n, ..b })
            &&& bonuses_in(
                text,
                StatMatchTexts { cold_resistance: m.cold_resistance.push(groups), ..m },
            ) == (BonusTotals { cold_resistance: b.cold_resistance + n, ..b })
            &&& bonuses_in(
                text,
                StatMatchTexts { lightning_resistance: m.lightning_resistance.push(groups), ..m },
            ) == (BonusTotals { lightning_resistance: b.lightning_resistance + n, ..b })
            &&& bonuses_in(
                text,
                StatMatchTexts { chaos_resistance: m.chaos_resistance.push(groups), ..m },
            ) == (BonusTotals { chaos_resistance: b.chaos_resistance + n, ..b })
            &&& bonuses_in(
                text,
                StatMatchTexts { all_resistances: m.all_resistances.push(groups), ..m },
            ) == (BonusTotals {
                fire_resistance: b.fire_resistance + n,
                cold_resistance: b.cold_resistance + n,
                lightning_resistance: b.lightning_resistance + n,
                ..b
            })
        }),
{
    lemma_total(m.fire_resistance, groups, n);
    lemma_total(m.cold_resistance, groups, n);
    lemma_total(m.lightning_resistance, groups, n);
    lemma_total(m.chaos_resistance, groups, n);
    lemma_total(m.all_resistances, groups, n);
}

/// Without any match an item adds its properties alone.
pub proof fn without_matches_only_properties_add(text: Seq<char>, m: StatMatchTexts)
    requires
        m.life.len() == 0,
        m.mana.len() == 0,
        m.energy_shield.len() == 0,
        m.fire_resistance.len() == 0,
        m.cold_resistance.len() == 0,
        m.lightning_resistance.len() == 0,
        m.chaos_resistance.len() == 0,
        m.strength.len() == 0,
        m.dexterity.len() == 0,
        m.intelligence.len() == 0,
        m.all_resistances.len() == 0,
    ensures
        bonuses_in(text, m) == (BonusTotals {
            energy_shield: property(text, "Energy Shield"@),
            armour: property(text, "Armour"@),
            evasion: property(text, "Evasion Rating"@),
            ..no_bonuses()
        }),
        ({
            let none = no_bonuses();
            none.life == 0 && none.mana == 0 && none.energy_shield == 0 && none.armour == 0
                && none.evasion == 0 && none.fire_resistance == 0 && none.cold_resistance == 0
                && none.lightning_resistance == 0 && none.chaos_resistance == 0 && none.strength == 0
                && none.dexterity == 0 && none.intelligence == 0
        }),
{
}

/// Sums fit where every sum from the first match on is in the range of the integers of bonuses.
pub proof fn sums_fit_in_range(matches: Seq<Seq<Option<Seq<char>>>>)
    ensures
        total_fits(matches) <==> forall|n: int|
            0 <= n <= matches.len() ==> -2_147_483_648 <= total_of(#[trigger] matches.take(n))
                <= 2_147_483_647,
{
}

/// Whether a number is in the range of the integers of bonuses.
pub open spec fn is_small(n: int) -> bool {
    -2_147_483_648 <= n <= 2_147_483_647
}

/// Whether all numbers are in the range of the integers of bonuses.
pub open spec fn are_small(b: BonusTotals) -> bool {
    is_small(b.life) && is_small(b.mana) && is_small(b.energy_shield) && is_small(b.armour)
        && is_small(b.evasion) && is_small(b.fire_resistance) && is_small(b.cold_resistance)
        && is_small(b.lightning_resistance) && is_small(b.chaos_resistance) && is_small(b.strength)
        && is_small(b.dexterity) && is_small(b.intelligence)
}

/// An item is read wherever its sums fit on the way and what it adds is in range.
pub proof fn an_item_fits_where_its_sums_do(input: Seq<char>)
    ensures
        ({
            let m = found_statistics(trimmed(input));
            total_fits(m.life) && total_fits(m.mana) && total_fits(m.energy_shield) && total_fits(
                m.fire_resistance,
            ) && total_fits(m.cold_resistance) && total_fits(m.lightning_resistance) && total_fits(
                m.chaos_resistance,
            ) && total_fits(m.strength) && total_fits(m.dexterity) && total_fits(m.intelligence)
                && total_fits(m.all_resistances) && are_small(bonuses_in(trimmed(input), m))
                ==> item_fits(input)
        }),
        trimmed(input).len() == 0 ==> item_fits(input),
        none_with(copied_lines(input), "Rarity:"@) ==> item_fits(input),
{
    if none_with(copied_lines(input), "Rarity:"@) {
        no_line_is_found(copied_lines(input), "Rarity:"@, 0);
    }
}

/// What items add together fits where every sum from the first item on is in range.
pub proof fn worn_items_fit_in_range(items: Seq<CapturedItem>)
    ensures
        sums_fit(bonus_list(items)) <==> forall|n: int|
            0 <= n <= items.len() ==> are_small(sum_of(#[trigger] bonus_list(items).take(n))),
{
    assert(bonus_list(items).len() == items.len());
    assert(forall|b: BonusTotals| are_small(b) == all_fit(b));
}

// ---------------------------------------------------------------- properties

/// Whether a line tells no number behind a label.
pub open spec fn tells_no_number(line: Seq<char>, prefix: Seq<char>) -> bool {
    begins_with(line, prefix) ==> match first_word_of(line.skip(prefix.len() as int)) {
        Some(word) => number_in(word) is None,
        None => true,
    }
}

proof fn lemma_property(lines: Seq<Seq<char>>, prefix: Seq<char>, k: int, n: int)
    requires
        0 <= k < lines.len(),
        property_of_line(lines[k], prefix) == Some(n),
        forall|j: int| 0 <= j < k ==> tells_no_number(trimmed(#[trigger] lines[j]), prefix),
    ensures
        property_in(lines, prefix) == n,
    decreases k,
{
    if k > 0 {
        assert(tells_no_number(trimmed(lines[0]), prefix));
        let rest = lines.skip(1);
        assert forall|j: int| 0 <= j < k - 1 implies tells_no_number(
            trimmed(#[trigger] rest[j]),
            prefix,
        ) by {
            assert(rest[j] == lines[j + 1]);
        }
        lemma_property(rest, prefix, k - 1, n);
    }
}

proof fn lemma_no_property(lines: Seq<Seq<char>>, prefix: Seq<char>)
    requires
        forall|j: int|
            0 <= j < lines.len() ==> tells_no_number(trimmed(#[trigger] lines[j]), prefix),
    ensures
        property_in(lines, prefix) == 0,
    decreases lines.len(),
{
    if lines.len() > 0 {
        assert(tells_no_number(trimmed(lines[0]), prefix));
        let rest = lines.skip(1);
        assert forall|j: int| 0 <= j < rest.len() implies tells_no_number(
            trimmed(#[trigger] rest[j]),
            prefix,
        ) by {
            assert(rest[j] == lines[j + 1]);
        }
        lemma_no_property(rest, prefix);
    }
}

/// A property is the number in the first word behind its name and a colon, in the first line that
/// tells a number so; without such a line it is zero.
pub proof fn a_property_is_told_behind_its_name(
    text: Seq<char>,
    name: Seq<char>,
    k: int,
    pad: Seq<char>,
    word: Seq<char>,
    rest: Seq<char>,
    n: int,
)
    requires
        all_white(pad),
        word.len() > 0,
        forall|i: int| 0 <= i < word.len() ==> !is_white(#[trigger] word[i]),
        rest.len() > 0 ==> is_white(rest[0]),
        number_in(word) == Some(n),
    ensures
        ({
            let lines = trimmed_lines(text);
            &&& 0 <= k < lines.len() && lines[k] == name + ":"@ + (pad + word + rest) && (forall|
                j: int,
            |
                0 <= j < k ==> tells_no_number(#[trigger] lines[j], name + ":"@)) ==> property(
                text,
                name,
            ) == n
            &&& (forall|j: int|
                0 <= j < lines.len() ==> tells_no_number(#[trigger] lines[j], name + ":"@))
                ==> property(text, name) == 0
        }),
{
    let prefix = name + ":"@;
    let lines = trimmed_lines(text);
    let plain = lines_of(text);
    assert(lines.len() == plain.len());
    assert forall|j: int| 0 <= j < plain.len() implies lines[j] == trimmed(#[trigger] plain[j]) by {}
    if 0 <= k < lines.len() && lines[k] == prefix + (pad + word + rest) && (forall|j: int|
        0 <= j < k ==> tells_no_number(#[trigger] lines[j], prefix)) {
        a_text_begins_with_its_front(prefix, pad + word + rest);
        the_first_word_ends_at_white_space(pad, word, rest);
        assert forall|j: int| 0 <= j < k implies tells_no_number(
            trimmed(#[trigger] plain[j]),
            prefix,
        ) by {
            assert(tells_no_number(lines[j], prefix));
        }
        lemma_property(plain, prefix, k, n);
    }
    if forall|j: int| 0 <= j < lines.len() ==> tells_no_number(#[trigger] lines[j], prefix) {
        assert forall|j: int| 0 <= j < plain.len() implies tells_no_number(
            trimmed(#[trigger] plain[j]),
            prefix,
        ) by {
            assert(tells_no_number(lines[j], prefix));
        }
        lemma_no_property(plain, prefix);
    }
}

// ---------------------------------------------------------------- sums of items

/// Bonuses are added number by number.
pub proof fn bonuses_are_added_number_by_number(a: BonusTotals, b: BonusTotals)
    ensures
        plus(a, b).life == a.life + b.life,
        plus(a, b).mana == a.mana + b.mana,
        plus(a, b).energy_shield == a.energy_shield + b.energy_shield,
        plus(a, b).armour == a.armour + b.armour,
        plus(a, b).evasion == a.evasion + b.evasion,
        plus(a, b).fire_resistance == a.fire_resistance + b.fire_resistance,
        plus(a, b).cold_resistance == a.cold_resistance + b.cold_resistance,
        plus(a, b).lightning_resistance == a.lightning_resistance + b.lightning_resistance,
        plus(a, b).chaos_resistance == a.chaos_resistance + b.chaos_resistance,
        plus(a, b).strength == a.strength + b.strength,
        plus(a, b).dexterity == a.dexterity + b.dexterity,
        plus(a, b).intelligence == a.intelligence + b.intelligence,
{
}

/// A further item adds its bonuses to what the others add; no items add nothing.
pub proof fn every_worn_item_counts(items: Seq<CapturedItem>, item: CapturedItem)
    ensures
        equipment_total(Seq::<CapturedItem>::empty()) == no_bonuses(),
        equipment_total(items.push(item)) == plus(equipment_total(items), item.bonuses@),
{
    assert(bonus_list(items.push(item)).drop_last() =~= bonus_list(items));
    assert(bonus_list(items.push(item)).last() == item.bonuses@);
}

} // verus!
