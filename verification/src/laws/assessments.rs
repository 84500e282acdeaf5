//! What is told of a captured character: what it lacks, what it covers, and how it is summed up.

use vstd::prelude::*;
use vstd::string::*;
use crate::assessment::{
    any_has_tag, assessment_fits, assessment_of, chaos_warning, gem_has_tag, gem_name_holds,
    gem_warning, guard_skills, lowered_groups, resistance_gap, slot_warning, tree_warning,
};
use crate::character::{
    gem_lines, item_lines, known, sheet_lines, CaptureFreshness, CapturedGem, CapturedItem,
    OfflineCharacter,
};
use crate::item_text::number_in;
use crate::laws::texts::{a_text_holds_its_parts, present_texts_are_kept};
use crate::number::{decimal, decimal_with_sign};
use crate::text::{holds, joined, lowered, present, trimmed};

verus! {

// ---------------------------------------------------------------- coverage

/// A gem whose name holds that of a guard skill, in whatever case, covers the character with one;
/// nothing else does.
pub proof fn guard_skills_cover(
    character: OfflineCharacter,
    i: int,
    front: Seq<char>,
    skill: Seq<char>,
    back: Seq<char>,
)
    ensures
        assessment_of(character).coverage.len() == 4,
        assessment_of(character).coverage[1].0 == "Guard skill"@,
        0 <= i < character.gems@.len() && lowered(character.gems@[i].name@) == front + skill + back
            && (skill == "molten shell"@ || skill == "steelskin"@ || skill == "immortal call"@
            || skill == "arcane cloak"@ || skill == "frost shield"@) ==> assessment_of(
            character,
        ).coverage[1].1,
        assessment_of(character).coverage[1].1 ==> exists|k: int|
            0 <= k < character.gems@.len() && {
                let name = lowered((#[trigger] character.gems@[k]).name@);
                holds(name, "molten shell"@) || holds(name, "steelskin"@) || holds(
                    name,
                    "immortal call"@,
                ) || holds(name, "arcane cloak"@) || holds(name, "frost shield"@)
            },
{
    let gems = character.gems@;
    let skills = guard_skills();
    let named = 0 <= i < gems.len() && lowered(gems[i].name@) == front + skill + back && (skill
        == "molten shell"@ || skill == "steelskin"@ || skill == "immortal call"@ || skill
        == "arcane cloak"@ || skill == "frost shield"@);
    if named {
        a_text_holds_its_parts(front, skill, back);
        assert(skills[0] == "molten shell"@ && skills[1] == "steelskin"@ && skills[2]
            == "immortal call"@ && skills[3] == "arcane cloak"@ && skills[4] == "frost shield"@);
        assert(gem_name_holds(gems[i], skills));
    }
    if assessment_of(character).coverage[1].1 {
        let k = choose|k: int|
            0 <= k < gems.len() && gem_name_holds(#[trigger] gems[k], skills);
        let j = choose|j: int|
            0 <= j < skills.len() && holds(lowered(gems[k].name@), #[trigger] skills[j]);
        assert(j == 0 || j == 1 || j == 2 || j == 3 || j == 4);
    }
}

/// Whether one of the gems has the tag, in whatever case.
pub open spec fn is_tagged(gems: Seq<CapturedGem>, tag: Seq<char>) -> bool {
    exists|i: int, j: int|
        0 <= i < gems.len() && 0 <= j < gems[i].tags@.len() && lowered(
            #[trigger] gems[i].tags@[j]@,
        ) == tag
}

proof fn lemma_tags(gems: Seq<CapturedGem>, tags: Seq<Seq<char>>, tag: Seq<char>)
    ensures
        tags.contains(tag) && is_tagged(gems, tag) ==> any_has_tag(gems, tags),
        any_has_tag(gems, tags) ==> exists|t: Seq<char>| #[trigger]
            tags.contains(t) && is_tagged(gems, t),
{
    if tags.contains(tag) && is_tagged(gems, tag) {
        let (i, j) = choose|i: int, j: int|
            0 <= i < gems.len() && 0 <= j < gems[i].tags@.len() && lowered(
                #[trigger] gems[i].tags@[j]@,
            ) == tag;
        assert(gem_has_tag(gems[i], tags));
    }
    if any_has_tag(gems, tags) {
        let i = choose|i: int|
            0 <= i < gems.len() && gem_has_tag(#[trigger] gems[i], tags);
        let j = choose|j: int|
            0 <= j < gems[i].tags@.len() && tags.contains(lowered(#[trigger] gems[i].tags@[j]@));
        let t = lowered(gems[i].tags@[j]@);
        assert(tags.contains(t) && is_tagged(gems, t));
    }
}

/// A tag of movement covers a character with a movement skill, a tag of an aura or a reservation
/// with an aura, and a tag of a curse, a hex or a mark with a curse; nothing else does.
pub proof fn tags_cover(character: OfflineCharacter)
    ensures
        ({
            let gems = character.gems@;
            let coverage = assessment_of(character).coverage;
            &&& coverage.len() == 4
            &&& coverage[0] == ("Movement skill"@, is_tagged(gems, "movement"@))
            &&& coverage[2] == (
                "Aura or reservation skill"@,
                is_tagged(gems, "aura"@) || is_tagged(gems, "reservation"@),
            )
            &&& coverage[3] == (
                "Curse or mark"@,
                is_tagged(gems, "curse"@) || is_tagged(gems, "hex"@) || is_tagged(gems, "mark"@),
            )
        }),
{
    let gems = character.gems@;
    let movement = seq!["movement"@];
    let aura = seq!["aura"@, "reservation"@];
    let curse = seq!["curse"@, "hex"@, "mark"@];
    assert(movement[0] == "movement"@ && aura[0] == "aura"@ && aura[1] == "reservation"@ && curse[0]
        == "curse"@ && curse[1] == "hex"@ && curse[2] == "mark"@);
    lemma_tags(gems, movement, "movement"@);
    lemma_tags(gems, aura, "aura"@);
    lemma_tags(gems, aura, "reservation"@);
    lemma_tags(gems, curse, "curse"@);
    lemma_tags(gems, curse, "hex"@);
    lemma_tags(gems, curse, "mark"@);
    assert forall|t: Seq<char>| movement.contains(t) implies t == "movement"@ by {}
    assert forall|t: Seq<char>| aura.contains(t) implies t == "aura"@ || t == "reservation"@ by {}
    assert forall|t: Seq<char>| curse.contains(t) implies t == "curse"@ || t == "hex"@ || t
        == "mark"@ by {}
}

// ---------------------------------------------------------------- numbers

/// The number that the sheet of a character tells under a name.
pub open spec fn told_number(character: OfflineCharacter, name: Seq<char>) -> Option<int> {
    if character.sheet_stats@.contains_key(name) {
        number_in(character.sheet_stats@[name])
    } else {
        None
    }
}

/// Life and energy shield are those of the sheet; the pool is both together, or the one that is
/// known.
pub proof fn the_pool_is_life_and_energy_shield(character: OfflineCharacter)
    ensures
        ({
            let a = assessment_of(character);
            let life = told_number(character, "Life"@);
            let shield = told_number(character, "Energy Shield"@);
            &&& a.captured_life == life
            &&& a.captured_energy_shield == shield
            &&& life is Some && shield is Some ==> a.raw_life_es_pool == Some(life->0 + shield->0)
            &&& life is Some && shield is None ==> a.raw_life_es_pool == life
            &&& life is None && shield is Some ==> a.raw_life_es_pool == shield
            &&& life is None && shield is None ==> a.raw_life_es_pool is None
        }),
{
}

/// What is told of an elemental resistance: nothing at seventy-five and above.
pub open spec fn told_of_resistance(character: OfflineCharacter, name: Seq<char>) -> Seq<Seq<char>> {
    match told_number(character, name) {
        None => seq![name + ": not captured"@],
        Some(n) => if n >= 75 {
            seq![]
        } else {
            seq![name + ": "@ + decimal((75 - n) as nat) + "% below 75%"@]
        },
    }
}

proof fn lemma_present(list: Seq<Option<Seq<char>>>, text: Option<Seq<char>>)
    ensures
        present(list.push(text)) == present(list) + match text {
            Some(t) => seq![t],
            None => seq![],
        },
{
    present_texts_are_kept(list, text->0);
    match text {
        Some(t) => {
            assert(present(list) + seq![t] =~= present(list).push(t));
        },
        None => {
            assert(present(list) + Seq::<Seq<char>>::empty() =~= present(list));
        },
    }
}

/// The gaps tell of fire, cold and lightning in turn, of each that is below seventy-five or unknown.
pub proof fn gaps_are_told_in_turn(character: OfflineCharacter)
    ensures
        assessment_of(character).resistance_gaps == told_of_resistance(
            character,
            "Fire Resistance"@,
        ) + told_of_resistance(character, "Cold Resistance"@) + told_of_resistance(
            character,
            "Lightning Resistance"@,
        ),
{
    let a = resistance_gap(character, "Fire Resistance"@);
    let b = resistance_gap(character, "Cold Resistance"@);
    let c = resistance_gap(character, "Lightning Resistance"@);
    let none = Seq::<Option<Seq<char>>>::empty();
    lemma_present(none, a);
    lemma_present(none.push(a), b);
    lemma_present(none.push(a).push(b), c);
    assert(none.push(a).push(b).push(c) =~= seq![a, b, c]);
    assert(present(none) =~= Seq::<Seq<char>>::empty());
    assert(assessment_of(character).resistance_gaps =~= told_of_resistance(
        character,
        "Fire Resistance"@,
    ) + told_of_resistance(character, "Cold Resistance"@) + told_of_resistance(
        character,
        "Lightning Resistance"@,
    ));
}

/// What is told of slots that are not captured: nothing from eight slots on.
pub open spec fn told_of_slots(character: OfflineCharacter) -> Seq<Seq<char>> {
    if character.items@.len() >= 8 {
        seq![]
    } else {
        seq!["Only "@ + decimal(character.items@.len()) + " equipment slots are captured"@]
    }
}

/// What is told of gems: nothing where there is one.
pub open spec fn told_of_gems(character: OfflineCharacter) -> Seq<Seq<char>> {
    if character.gems@.len() > 0 {
        seq![]
    } else {
        seq!["No skill gems are captured"@]
    }
}

/// What is told of the passive tree: nothing where there is a link to it.
pub open spec fn told_of_tree(character: OfflineCharacter) -> Seq<Seq<char>> {
    if character.passive_tree_url@.len() > 0 {
        seq![]
    } else {
        seq!["Passive tree is missing"@]
    }
}

/// What is told of the resistance to chaos: nothing from zero on.
pub open spec fn told_of_chaos(character: OfflineCharacter) -> Seq<Seq<char>> {
    match told_number(character, "Chaos Resistance"@) {
        None => seq!["Chaos Resistance is not captured"@],
        Some(n) => if n >= 0 {
            seq![]
        } else {
            seq!["Chaos Resistance is negative (-"@ + decimal((-n) as nat) + "%)"@]
        },
    }
}

/// The warnings tell of slots, gems, the tree and chaos in turn, of each that calls for one.
pub proof fn warnings_are_told_in_turn(character: OfflineCharacter)
    ensures
        assessment_of(character).warnings == told_of_slots(character) + told_of_gems(character)
            + told_of_tree(character) + told_of_chaos(character),
{
    let a = slot_warning(character);
    let b = gem_warning(character);
    let c = tree_warning(character);
    let d = chaos_warning(character);
    let none = Seq::<Option<Seq<char>>>::empty();
    reveal_strlit("Chaos Resistance is negative (-");
    reveal_strlit("Chaos Resistance is negative (");
    assert("Chaos Resistance is negative (-"@ =~= "Chaos Resistance is negative ("@ + seq!['-']);
    if let Some(n) = told_number(character, "Chaos Resistance"@) {
        if n < 0 {
            assert("Chaos Resistance is negative ("@ + (seq!['-'] + decimal((-n) as nat)) =~=
                "Chaos Resistance is negative (-"@ + decimal((-n) as nat));
        }
    }
    lemma_present(none, a);
    lemma_present(none.push(a), b);
    lemma_present(none.push(a).push(b), c);
    lemma_present(none.push(a).push(b).push(c), d);
    assert(none.push(a).push(b).push(c).push(d) =~= seq![a, b, c, d]);
    assert(present(none) =~= Seq::<Seq<char>>::empty());
    assert(assessment_of(character).warnings =~= told_of_slots(character) + told_of_gems(character)
        + told_of_tree(character) + told_of_chaos(character));
}

/// A character can be assessed unless life and energy shield together, or the distance of a
/// resistance to seventy-five, are out of range.
pub proof fn ordinary_characters_can_be_assessed(character: OfflineCharacter)
    requires
        told_number(character, "Life"@) is Some && told_number(character, "Energy Shield"@) is Some
            ==> -2_147_483_648 <= told_number(character, "Life"@)->0 + told_number(
            character,
            "Energy Shield"@,
        )->0 <= 2_147_483_647,
        told_number(character, "Fire Resistance"@) matches Some(n) ==> n >= -2_147_483_572,
        told_number(character, "Cold Resistance"@) matches Some(n) ==> n >= -2_147_483_572,
        told_number(character, "Lightning Resistance"@) matches Some(n) ==> n >= -2_147_483_572,
    ensures
        assessment_fits(character),
{
    lemma_in_range(character, "Life"@);
    lemma_in_range(character, "Energy Shield"@);
}

proof fn lemma_in_range(character: OfflineCharacter, name: Seq<char>)
    ensures
        told_number(character, name) matches Some(n) ==> -2_147_483_648 <= n <= 2_147_483_647,
{
}

// ---------------------------------------------------------------- groups

proof fn lemma_groups(gems: Seq<CapturedGem>, gem: CapturedGem)
    ensures
        lowered_groups(gems.push(gem)) == lowered_groups(
            gems,
        ).push(lowered(gem.group@)),
{
    assert(lowered_groups(gems.push(gem)) =~= lowered_groups(
        gems,
    ).push(lowered(gem.group@)));
}

/// A gem of a new group raises the number of groups by one; a gem of a group that is there already,
/// in whatever case, does not.
pub proof fn groups_are_counted_once(
    character: OfflineCharacter,
    more: OfflineCharacter,
    gem: CapturedGem,
)
    requires
        more.gems@ == character.gems@.push(gem),
    ensures
        (exists|i: int|
            0 <= i < character.gems@.len() && lowered((#[trigger] character.gems@[i]).group@)
                == lowered(gem.group@)) ==> assessment_of(more).gem_groups == assessment_of(
            character,
        ).gem_groups,
        (forall|i: int|
            0 <= i < character.gems@.len() ==> lowered((#[trigger] character.gems@[i]).group@)
                != lowered(gem.group@)) ==> assessment_of(more).gem_groups == assessment_of(
            character,
        ).gem_groups + 1,
        character.gems@.len() == 0 ==> assessment_of(character).gem_groups == 0,
{
    let gems = character.gems@;
    let list = lowered_groups(gems);
    let group = lowered(gem.group@);
    lemma_groups(gems, gem);
    assert(list.push(group).to_set() =~= list.to_set().insert(group)) by {
        assert forall|t: Seq<char>| list.push(group).to_set().contains(t) <==> list.to_set().insert(
            group,
        ).contains(t) by {
            if list.contains(t) {
                let k = choose|k: int| 0 <= k < list.len() && list[k] == t;
                assert(list.push(group)[k] == t);
            }
            assert(list.push(group)[list.len() as int] == group);
        }
    }
    list.lemma_cardinality_of_set();
    if exists|i: int|
        0 <= i < gems.len() && lowered((#[trigger] gems[i]).group@) == lowered(gem.group@) {
        let i = choose|i: int|
            0 <= i < gems.len() && lowered((#[trigger] gems[i]).group@) == lowered(gem.group@);
        assert(list[i] == group);
        assert(list.to_set().contains(group));
        assert(list.to_set().insert(group) =~= list.to_set());
    }
    if forall|i: int|
        0 <= i < gems.len() ==> lowered((#[trigger] gems[i]).group@) != lowered(gem.group@) {
        assert forall|k: int| 0 <= k < list.len() implies list[k] != group by {
            assert(list[k] == lowered(gems[k].group@));
        }
        assert(!list.to_set().contains(group));
    }
    if gems.len() == 0 {
        assert(list.to_set() =~= Set::empty());
    }
}

/// Nothing was captured yet where no part has a time and the sheet no confidence.
pub proof fn nothing_is_fresh_before_a_capture(freshness: CaptureFreshness)
    ensures
        freshness.is_unset() <==> freshness.identity_at is None && freshness.equipment_at is None
            && freshness.gems_at is None && freshness.sheet_at is None
            && freshness.passives_at is None && freshness.sheet_confidence is None,
{
}

// ---------------------------------------------------------------- the summary

/// The lines of a summary of a character.
pub open spec fn summary_of(
    name: Seq<char>,
    level: nat,
    class_name: Seq<char>,
    ascendancy: Seq<char>,
    league: Seq<char>,
    sheet: Seq<char>,
    equipment: Seq<char>,
    gems: Seq<char>,
) -> Seq<char> {
    name + " | Level "@ + decimal(level) + " "@ + class_name + " "@ + ascendancy + " | League "@
        + league + "\nCharacter sheet: "@ + sheet + "\nEquipment: "@ + equipment
        + "\nCaptured gems: "@ + gems
}

/// A summary tells the character on one line, and the sheet, the items and the gems on one line each.
pub proof fn a_summary_tells_the_character(character: OfflineCharacter)
    ensures
        character.summary_text() == summary_of(
            known(character.name@),
            character.level as nat,
            known(character.class_name@),
            known(character.ascendancy@),
            known(character.league@),
            joined(sheet_lines(character.sheet_stats.listing()), ", "@),
            joined(item_lines(character.items@), ", "@),
            joined(gem_lines(character.gems@), ", "@),
        ),
{
}

/// A value is shown as it is unless nothing but white space is known of it.
pub proof fn values_are_shown_where_they_are_known(value: Seq<char>)
    ensures
        trimmed(value).len() > 0 ==> known(value) == value,
        trimmed(value).len() == 0 ==> known(value) == "unknown"@,
{
}

/// Each entry of the sheet, each item and each gem is shown in its place.
pub proof fn entries_are_shown_in_their_places(
    entries: Seq<(Seq<char>, Seq<char>)>,
    items: Seq<CapturedItem>,
    gems: Seq<CapturedGem>,
    i: int,
)
    ensures
        sheet_lines(entries).len() == entries.len(),
        item_lines(items).len() == items.len(),
        gem_lines(gems).len() == gems.len(),
        0 <= i < entries.len() ==> sheet_lines(entries)[i] == entries[i].0 + "="@ + entries[i].1,
        0 <= i < items.len() ==> item_lines(items)[i] == items[i].slot@ + ": "@ + items[i].name@,
        0 <= i < gems.len() ==> gem_lines(gems)[i] == gems[i].group@ + ": "@ + gems[i].name@
            + " (level "@ + decimal(gems[i].level as nat) + ", quality "@ + decimal_with_sign(
            gems[i].quality as int,
        ) + "%)"@,
{
}

} // verus!
