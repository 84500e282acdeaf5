//! What is read from a document of Path of Building.

use vstd::prelude::*;
use vstd::string::*;
use crate::laws::texts::a_text_begins_with_its_front;
use crate::number::unsigned_in;
use crate::order::{keys_of, map_holds_the_pairs, map_of, precedes};
use crate::pob::{PobBuild, PobError};
use crate::pob_document::{
    attribute_in, equipment_texts, is_build, nothing_read, read_build, read_xml, shown_name,
    stat_texts, with_event, with_events, worn, ReadSoFar,
};
use crate::text::{begins_with, ends_in, filled, views};
use crate::xml::{
    leading_events, raw_events, tag_attributes, xml_events, AttributeTexts, EventTexts, RawTexts,
};

verus! {

// ---------------------------------------------------------------- attributes

/// Whether attribute `k` is the first with the name, and none in front of it is malformed.
pub open spec fn is_first_attribute(
    attributes: Seq<Option<AttributeTexts>>,
    name: Seq<char>,
    k: int,
) -> bool {
    &&& 0 <= k < attributes.len()
    &&& attributes[k] is Some && attributes[k]->0.key == name
    &&& forall|j: int|
        0 <= j < k ==> (#[trigger] attributes[j]) is Some && attributes[j]->0.key != name
}

/// An attribute has the value that is written under its name for the first time; it is missing where
/// no attribute has the name, and an attribute that is malformed or unreadable is an error.
pub proof fn the_first_attribute_decides(
    attributes: Seq<Option<AttributeTexts>>,
    name: Seq<char>,
    k: int,
)
    ensures
        is_first_attribute(attributes, name, k) ==> attribute_in(attributes, name) == match attributes[k]->0.value {
            Some(value) => Ok::<Option<Seq<char>>, PobError>(Some(value)),
            None => Err::<Option<Seq<char>>, PobError>(PobError::UnreadableAttribute),
        },
        (forall|j: int|
            0 <= j < attributes.len() ==> (#[trigger] attributes[j]) is Some
                && attributes[j]->0.key != name) ==> attribute_in(attributes, name) == Ok::<
            Option<Seq<char>>,
            PobError,
        >(None),
        0 <= k < attributes.len() && attributes[k] is None && (forall|j: int|
            0 <= j < k ==> (#[trigger] attributes[j]) is Some && attributes[j]->0.key != name)
            ==> attribute_in(attributes, name) == Err::<Option<Seq<char>>, PobError>(
            PobError::InvalidAttribute,
        ),
    decreases attributes.len(),
{
    if attributes.len() > 0 {
        let rest = attributes.skip(1);
        let first = attributes[0];
        the_first_attribute_decides(rest, name, k - 1);
        assert forall|j: int| 0 <= j < rest.len() implies rest[j] == #[trigger] attributes[j
            + 1] by {}
        if is_first_attribute(attributes, name, k) && k > 0 {
            assert(first is Some && first->0.key != name);
            assert forall|j: int| 0 <= j < k - 1 implies (#[trigger] rest[j]) is Some
                && rest[j]->0.key != name by {
                assert(rest[j] == attributes[j + 1]);
            }
            assert(is_first_attribute(rest, name, k - 1));
        }
        if forall|j: int|
            0 <= j < attributes.len() ==> (#[trigger] attributes[j]) is Some
                && attributes[j]->0.key != name {
            assert(first is Some && first->0.key != name);
            assert forall|j: int| 0 <= j < rest.len() implies (#[trigger] rest[j]) is Some
                && rest[j]->0.key != name by {
                assert(rest[j] == attributes[j + 1]);
            }
        }
        if 0 < k < attributes.len() && attributes[k] is None && (forall|j: int|
            0 <= j < k ==> (#[trigger] attributes[j]) is Some && attributes[j]->0.key != name) {
            assert(first is Some && first->0.key != name);
            assert(rest[k - 1] is None);
            assert forall|j: int| 0 <= j < k - 1 implies (#[trigger] rest[j]) is Some
                && rest[j]->0.key != name by {
                assert(rest[j] == attributes[j + 1]);
            }
        }
    }
}

/// A tag that is opened.
pub open spec fn tag(name: Seq<char>, empty: bool, attributes: Seq<Option<AttributeTexts>>) -> EventTexts {
    EventTexts::Open { name, empty, attributes }
}

/// Whether an attribute of a tag has a value, or is missing.
pub open spec fn says(
    attributes: Seq<Option<AttributeTexts>>,
    name: Seq<char>,
    value: Option<Seq<char>>,
) -> bool {
    attribute_in(attributes, name) == Ok::<Option<Seq<char>>, PobError>(value)
}

/// What is read of a document after an event, where it goes well.
pub open spec fn becomes(s: ReadSoFar, event: EventTexts, next: ReadSoFar) -> bool {
    with_event(s, event) == Ok::<ReadSoFar, PobError>(next)
}

/// Whether a set is in use: where the document names none, or names this one.
pub open spec fn in_use(active: Seq<char>, current: Seq<char>) -> bool {
    active.len() == 0 || current.len() == 0 || active == current
}

/// A text that may be missing, as a text.
pub open spec fn text_or_none(text: Option<Seq<char>>) -> Seq<char> {
    match text {
        Some(text) => text,
        None => Seq::empty(),
    }
}

/// The place that an attribute names, the first one where it names none.
pub open spec fn place_or_first(text: Option<Seq<char>>) -> int {
    match text {
        Some(text) => match unsigned_in(text, usize::MAX as int) {
            Some(n) => n,
            None => 1,
        },
        None => 1,
    }
}

proof fn lemma_tags()
    ensures
        "PathOfBuilding"@.len() == 14,
        "Build"@.len() == 5 && "Build"@[0] == 'B',
        "Skills"@.len() == 6,
        "SkillSet"@.len() == 8,
        "Skill"@.len() == 5 && "Skill"@[0] == 'S',
        "Items"@.len() == 5 && "Items"@[0] == 'I',
        "ItemSet"@.len() == 7,
        "Item"@.len() == 4 && "Item"@[0] == 'I',
        "PlayerStat"@.len() == 10,
        "Gem"@.len() == 3,
        "Slot"@.len() == 4 && "Slot"@[0] == 'S',
{
    reveal_strlit("PathOfBuilding");
    reveal_strlit("Build");
    reveal_strlit("Skills");
    reveal_strlit("SkillSet");
    reveal_strlit("Skill");
    reveal_strlit("Items");
    reveal_strlit("ItemSet");
    reveal_strlit("Item");
    reveal_strlit("PlayerStat");
    reveal_strlit("Gem");
    reveal_strlit("Slot");
}

// ---------------------------------------------------------------- the document

/// A document begins with nothing known: the first group is the main one, and its first gem.
pub proof fn a_document_begins_with_nothing()
    ensures
        ({
            let s = nothing_read();
            &&& !s.rooted && s.level is None && s.class_name.len() == 0 && s.ascendancy.len() == 0
            &&& s.main_skill.len() == 0 && s.stats.len() == 0 && s.gems.len() == 0
            &&& s.items == Map::<Seq<char>, Seq<char>>::empty()
            &&& s.slots == Map::<Seq<char>, Seq<char>>::empty()
            &&& s.open_item is None && s.active_item_set.len() == 0 && s.item_set.len() == 0
            &&& s.active_skill_set.len() == 0 && s.skill_set.len() == 0
            &&& s.main_group == 1 && s.group == 0 && !s.in_main_group && s.main_gem == 1
            &&& s.main_gems.len() == 0
        }),
{
}

/// Events are read one after the other, and the first error ends the reading.
pub proof fn events_are_read_in_turn(events: Seq<EventTexts>, event: EventTexts)
    ensures
        with_events(Seq::<EventTexts>::empty()) == Ok::<ReadSoFar, PobError>(nothing_read()),
        with_events(events) matches Ok(s) ==> with_events(events.push(event)) == with_event(s, event),
        with_events(events) matches Err(e) ==> with_events(events.push(event)) == Err::<
            ReadSoFar,
            PobError,
        >(e),
{
    assert(events.push(event).drop_last() =~= events);
}

/// A document is read where it ends well and is one of Path of Building.
pub proof fn whole_documents_are_read(events: Seq<EventTexts>, complete: bool)
    ensures
        with_events(events) matches Err(e) ==> read_build(events, complete) == Err::<
            ReadSoFar,
            PobError,
        >(e),
        with_events(events) matches Ok(s) ==> read_build(events, complete) == if !complete {
            Err::<ReadSoFar, PobError>(PobError::InvalidXml)
        } else if !s.rooted {
            Err::<ReadSoFar, PobError>(PobError::NotPathOfBuilding)
        } else {
            Ok::<ReadSoFar, PobError>(s)
        },
{
}

proof fn lemma_leading(all: Seq<Option<EventTexts>>, n: int)
    requires
        0 <= n <= all.len(),
        forall|i: int| 0 <= i < n ==> (#[trigger] all[i]) is Some,
        n < all.len() ==> all[n] is None,
    ensures
        leading_events(all).len() == n,
        forall|i: int| 0 <= i < n ==> #[trigger] leading_events(all)[i] == all[i]->0,
    decreases n,
{
    if n > 0 {
        let rest = all.skip(1);
        assert forall|i: int| 0 <= i < n - 1 implies (#[trigger] rest[i]) is Some by {
            assert(rest[i] == all[i + 1]);
        }
        lemma_leading(rest, n - 1);
        assert forall|i: int| 0 <= i < n implies #[trigger] leading_events(all)[i] == all[i]->0 by {
            if i > 0 {
                assert(leading_events(all)[i] == leading_events(rest)[i - 1]);
                assert(rest[i - 1] == all[i]);
            }
        }
    }
}

/// Each event of a document is what the reader gives, a tag with the attributes that are found in its
/// text.
pub proof fn tags_have_the_attributes_of_their_text(xml: Seq<char>, i: int)
    requires
        0 <= i < raw_events(xml).len(),
    ensures
        xml_events(xml).len() == raw_events(xml).len(),
        raw_events(xml)[i] is None ==> xml_events(xml)[i] is None,
        raw_events(xml)[i] matches Some(raw) ==> xml_events(xml)[i] == Some(
            match raw {
                RawTexts::Open(name, empty, rest) => tag(name, empty, tag_attributes(rest)),
                RawTexts::Close(name) => EventTexts::Close(name),
                RawTexts::Text(text) => EventTexts::Text(text),
                RawTexts::Other => EventTexts::Other,
                RawTexts::End => EventTexts::Other,
            },
        ),
{
}

/// The text of a document is read event by event, up to its end or to the first error.
pub proof fn a_text_is_read_event_by_event(xml: Seq<char>, events: Seq<EventTexts>)
    ensures
        xml_events(xml).len() == events.len() && (forall|i: int|
            0 <= i < events.len() ==> #[trigger] xml_events(xml)[i] == Some(events[i]))
            ==> read_xml(xml) == read_build(events, true),
        xml_events(xml).len() > events.len() && (forall|i: int|
            0 <= i < events.len() ==> #[trigger] xml_events(xml)[i] == Some(events[i]))
            && xml_events(xml)[events.len() as int] is None ==> read_xml(xml) == read_build(
            events,
            false,
        ),
{
    let all = xml_events(xml);
    let n = events.len() as int;
    if all.len() >= n && (forall|i: int| 0 <= i < n ==> #[trigger] all[i] == Some(events[i])) && (
    all.len() > n ==> all[n] is None) {
        lemma_leading(all, n);
        assert(leading_events(all) =~= events);
    }
}

/// The root makes a document one of Path of Building.
pub proof fn the_root_is_noticed(s: ReadSoFar, attributes: Seq<Option<AttributeTexts>>)
    ensures
        becomes(
            s,
            tag("PathOfBuilding"@, false, attributes),
            ReadSoFar { rooted: true, ..s },
        ),
{
}

/// Tags of other names, and tags of containers that hold nothing, tell nothing.
pub proof fn other_tags_tell_nothing(
    s: ReadSoFar,
    name: Seq<char>,
    empty: bool,
    attributes: Seq<Option<AttributeTexts>>,
)
    ensures
        name != "PathOfBuilding"@ && name != "Build"@ && name != "Skills"@ && name != "SkillSet"@
            && name != "Skill"@ && name != "Items"@ && name != "ItemSet"@ && name != "Item"@ && name
            != "PlayerStat"@ && name != "Gem"@ && name != "Slot"@ ==> becomes(
            s,
            tag(name, empty, attributes),
            s,
        ) && becomes(s, EventTexts::Close(name), s),
        name != "PlayerStat"@ && name != "Gem"@ && name != "Slot"@ ==> becomes(
            s,
            tag(name, true, attributes),
            s,
        ),
        becomes(s, EventTexts::Other, s),
{
}

// ---------------------------------------------------------------- the character

/// The level, class, ascendancy, main skill and main group of a build are those that its tag says.
pub proof fn a_build_tells_its_character(
    s: ReadSoFar,
    attributes: Seq<Option<AttributeTexts>>,
    level: Option<Seq<char>>,
    class_name: Option<Seq<char>>,
    ascendancy: Option<Seq<char>>,
    main_skill: Option<Seq<char>>,
    group: Option<Seq<char>>,
)
    requires
        says(attributes, "level"@, level),
        says(attributes, "className"@, class_name),
        says(attributes, "ascendClassName"@, ascendancy),
        says(attributes, "mainSkill"@, main_skill),
        says(attributes, "mainSocketGroup"@, group),
    ensures
        becomes(
            s,
            tag("Build"@, false, attributes),
            ReadSoFar {
                level: match level {
                    Some(text) => unsigned_in(text, 4_294_967_295),
                    None => None,
                },
                class_name: text_or_none(class_name),
                ascendancy: text_or_none(ascendancy),
                main_skill: text_or_none(main_skill),
                main_group: place_or_first(group),
                ..s
            },
        ),
{
    lemma_tags();
}

/// A statistic is kept behind those before it, where both its name and its value are said.
pub proof fn a_statistic_is_kept(
    s: ReadSoFar,
    empty: bool,
    attributes: Seq<Option<AttributeTexts>>,
    name: Option<Seq<char>>,
    value: Option<Seq<char>>,
)
    requires
        says(attributes, "stat"@, name),
        says(attributes, "value"@, value),
    ensures
        name is Some && value is Some ==> becomes(
            s,
            tag("PlayerStat"@, empty, attributes),
            ReadSoFar { stats: s.stats.push((name->0, value->0)), ..s },
        ),
        name is None || value is None ==> becomes(s, tag("PlayerStat"@, empty, attributes), s),
{
    lemma_tags();
}

// ---------------------------------------------------------------- skills

/// The skill set in use is the one that the document names.
pub proof fn the_skill_set_in_use_is_named(
    s: ReadSoFar,
    attributes: Seq<Option<AttributeTexts>>,
    set: Option<Seq<char>>,
)
    ensures
        says(attributes, "activeSkillSet"@, set) ==> becomes(
            s,
            tag("Skills"@, false, attributes),
            ReadSoFar { active_skill_set: text_or_none(set), ..s },
        ),
        says(attributes, "id"@, set) && in_use(s.active_skill_set, text_or_none(set)) ==> becomes(
            s,
            tag("SkillSet"@, false, attributes),
            ReadSoFar { skill_set: text_or_none(set), group: 0, ..s },
        ),
        says(attributes, "id"@, set) && !in_use(s.active_skill_set, text_or_none(set)) ==> becomes(
            s,
            tag("SkillSet"@, false, attributes),
            ReadSoFar { skill_set: text_or_none(set), ..s },
        ),
        becomes(s, EventTexts::Close("SkillSet"@), ReadSoFar { skill_set: Seq::empty(), ..s }),
{
    lemma_tags();
}

/// The groups of the set in use are counted; the one whose number is that of the main group is the
/// main one, unless it is switched off. Groups of other sets are passed over.
pub proof fn skill_groups_are_counted(
    s: ReadSoFar,
    attributes: Seq<Option<AttributeTexts>>,
    enabled: Option<Seq<char>>,
    main_gem: Option<Seq<char>>,
)
    requires
        says(attributes, "enabled"@, enabled),
        says(attributes, "mainActiveSkill"@, main_gem),
    ensures
        in_use(s.active_skill_set, s.skill_set) ==> becomes(
            s,
            tag("Skill"@, false, attributes),
            ReadSoFar {
                group: s.group + 1,
                in_main_group: s.group + 1 == s.main_group && enabled != Some("false"@),
                main_gem: place_or_first(main_gem),
                main_gems: Seq::empty(),
                ..s
            },
        ),
        !in_use(s.active_skill_set, s.skill_set) ==> becomes(
            s,
            tag("Skill"@, false, attributes),
            s,
        ),
{
    lemma_tags();
}

/// What a gem that is listed becomes: behind the gems before it, and among the active gems of the
/// main group where it stands there and supports no other gem.
pub open spec fn with_listed_gem(s: ReadSoFar, name: Seq<char>) -> ReadSoFar {
    ReadSoFar {
        gems: s.gems.push(name),
        main_gems: if s.in_main_group && !ends_in(name, " Support"@) && !begins_with(
            name,
            "Support"@,
        ) {
            s.main_gems.push(name)
        } else {
            s.main_gems
        },
        ..s
    }
}

/// A gem of the set in use that is not switched off goes by the name that it says, whatever its
/// identifier is; the identifier is taken only where no name is said. A gem without either, and one
/// that is switched off or of another set, is not listed.
pub proof fn a_gem_goes_by_its_name(
    s: ReadSoFar,
    empty: bool,
    attributes: Seq<Option<AttributeTexts>>,
    enabled: Option<Seq<char>>,
    name: Option<Seq<char>>,
    id: Option<Seq<char>>,
)
    requires
        says(attributes, "enabled"@, enabled),
        says(attributes, "nameSpec"@, name),
        says(attributes, "skillId"@, id),
    ensures
        ({
            let gem = tag("Gem"@, empty, attributes);
            let listed = in_use(s.active_skill_set, s.skill_set) && enabled != Some("false"@);
            &&& listed && name is Some && name->0.len() > 0 ==> becomes(
                s,
                gem,
                with_listed_gem(s, name->0),
            )
            &&& listed && name is None && id is Some && id->0.len() > 0 ==> becomes(
                s,
                gem,
                with_listed_gem(s, id->0),
            )
            &&& name is Some && name->0.len() == 0 ==> becomes(s, gem, s)
            &&& name is None && (id is None || id->0.len() == 0) ==> becomes(s, gem, s)
            &&& !listed ==> becomes(s, gem, s)
        }),
{
    lemma_tags();
}

/// Whether one list is the start of another.
pub open spec fn starts(a: Seq<Seq<char>>, b: Seq<Seq<char>>) -> bool {
    a.len() <= b.len() && forall|i: int| 0 <= i < a.len() ==> #[trigger] a[i] == b[i]
}

proof fn lemma_gems_stay_in_a_step(s: ReadSoFar, event: EventTexts)
    ensures
        with_event(s, event) matches Ok(next) ==> starts(s.gems, next.gems),
{
}

proof fn lemma_gems_stay(events: Seq<EventTexts>, k: int)
    requires
        0 <= k <= events.len(),
        with_events(events) is Ok,
    ensures
        with_events(events.take(k)) is Ok,
        starts(with_events(events.take(k))->Ok_0.gems, with_events(events)->Ok_0.gems),
    decreases events.len() - k,
{
    if k < events.len() {
        lemma_gems_stay(events, k + 1);
        assert(events.take(k + 1).drop_last() =~= events.take(k));
        let s = with_events(events.take(k))->Ok_0;
        let next = with_events(events.take(k + 1))->Ok_0;
        lemma_gems_stay_in_a_step(s, events[k]);
        assert forall|i: int| 0 <= i < s.gems.len() implies #[trigger] s.gems[i] == with_events(
            events,
        )->Ok_0.gems[i] by {
            assert(s.gems[i] == next.gems[i]);
        }
    } else {
        assert(events.take(k) =~= events);
    }
}

/// A gem that a document names, of the set in use and not switched off, is listed in the build.
pub proof fn a_named_gem_is_listed(
    events: Seq<EventTexts>,
    k: int,
    empty: bool,
    attributes: Seq<Option<AttributeTexts>>,
    enabled: Option<Seq<char>>,
    name: Seq<char>,
    id: Option<Seq<char>>,
    b: PobBuild,
)
    requires
        0 <= k < events.len(),
        events[k] == tag("Gem"@, empty, attributes),
        says(attributes, "enabled"@, enabled),
        enabled != Some("false"@),
        says(attributes, "nameSpec"@, Some(name)),
        name.len() > 0,
        says(attributes, "skillId"@, id),
        with_events(events.take(k)) matches Ok(s) && in_use(s.active_skill_set, s.skill_set),
        read_build(events, true) matches Ok(s) && is_build(b, s),
    ensures
        views(b.skill_gems@).contains(name),
{
    let s = with_events(events.take(k))->Ok_0;
    let end = with_events(events)->Ok_0;
    a_gem_goes_by_its_name(s, empty, attributes, enabled, Some(name), id);
    assert(events.take(k + 1).drop_last() =~= events.take(k));
    assert(events.take(k + 1).last() == events[k]);
    lemma_gems_stay(events, k + 1);
    let listed = with_events(events.take(k + 1))->Ok_0.gems;
    assert(listed[s.gems.len() as int] == name);
    assert(end.gems[s.gems.len() as int] == name);
    assert(end.gems.contains(name));
}

/// The main skill is the one that the build names; or else, at the end of the main group, the active
/// gem of the group that is named by its place, and the first one where there is none at that place.
pub proof fn the_main_group_names_the_main_skill(s: ReadSoFar)
    ensures
        ({
            let chosen = if s.main_gem <= 1 {
                0
            } else {
                s.main_gem - 1
            };
            let left = ReadSoFar { in_main_group: false, main_gems: Seq::empty(), ..s };
            let end = EventTexts::Close("Skill"@);
            &&& !s.in_main_group || s.main_skill.len() > 0 ==> becomes(s, end, left)
            &&& s.in_main_group && s.main_skill.len() == 0 && chosen < s.main_gems.len() ==> becomes(
                s,
                end,
                ReadSoFar { main_skill: s.main_gems[chosen], ..left },
            )
            &&& s.in_main_group && s.main_skill.len() == 0 && 0 < s.main_gems.len() <= chosen
                ==> becomes(s, end, ReadSoFar { main_skill: s.main_gems[0], ..left })
            &&& s.in_main_group && s.main_skill.len() == 0 && s.main_gems.len() == 0 ==> becomes(
                s,
                end,
                left,
            )
        }),
{
    lemma_tags();
    if s.main_skill.len() == 0 {
        assert(s.main_skill =~= Seq::<char>::empty());
    }
}

// ---------------------------------------------------------------- items

/// The item set in use is the one that the document names; an item set lasts up to its end.
pub proof fn the_item_set_in_use_is_named(
    s: ReadSoFar,
    attributes: Seq<Option<AttributeTexts>>,
    set: Option<Seq<char>>,
)
    ensures
        says(attributes, "activeItemSet"@, set) ==> becomes(
            s,
            tag("Items"@, false, attributes),
            ReadSoFar { active_item_set: text_or_none(set), ..s },
        ),
        says(attributes, "id"@, set) ==> becomes(
            s,
            tag("ItemSet"@, false, attributes),
            ReadSoFar { item_set: text_or_none(set), ..s },
        ),
        becomes(s, EventTexts::Close("ItemSet"@), ReadSoFar { item_set: Seq::empty(), ..s }),
{
    lemma_tags();
}

/// A slot of the set in use holds the item whose number it names, unless that is zero; the last
/// such slot of a name counts.
pub proof fn a_slot_holds_the_item_it_names(
    s: ReadSoFar,
    empty: bool,
    attributes: Seq<Option<AttributeTexts>>,
    name: Option<Seq<char>>,
    item: Option<Seq<char>>,
)
    requires
        says(attributes, "name"@, name),
        says(attributes, "itemId"@, item),
    ensures
        ({
            let slot = tag("Slot"@, empty, attributes);
            let filled = in_use(s.active_item_set, s.item_set) && name is Some && item is Some
                && item->0 != "0"@;
            &&& filled ==> becomes(
                s,
                slot,
                ReadSoFar { slots: s.slots.insert(name->0, item->0), ..s },
            )
            &&& !filled ==> becomes(s, slot, s)
        }),
{
    lemma_tags();
}

/// An item with a number has all the text up to its end, and is shown by the name that this text
/// tells. Text outside of items does not count.
pub proof fn an_item_has_the_text_up_to_its_end(
    s: ReadSoFar,
    attributes: Seq<Option<AttributeTexts>>,
    id: Option<Seq<char>>,
    text: Seq<char>,
)
    ensures
        says(attributes, "id"@, id) && id is Some ==> becomes(
            s,
            tag("Item"@, false, attributes),
            ReadSoFar { open_item: Some((id->0, Seq::empty())), ..s },
        ),
        says(attributes, "id"@, id) && id is None ==> becomes(
            s,
            tag("Item"@, false, attributes),
            s,
        ),
        s.open_item is None ==> becomes(s, EventTexts::Text(Some(text)), s) && becomes(
            s,
            EventTexts::Text(None),
            s,
        ) && becomes(s, EventTexts::Close("Item"@), s),
        s.open_item matches Some((number, content)) ==> becomes(
            s,
            EventTexts::Text(Some(text)),
            ReadSoFar { open_item: Some((number, content + text)), ..s },
        ) && with_event(s, EventTexts::Text(None)) == Err::<ReadSoFar, PobError>(
            PobError::InvalidItemText,
        ) && becomes(
            s,
            EventTexts::Close("Item"@),
            ReadSoFar {
                items: s.items.insert(number, shown_name(content)),
                open_item: None,
                ..s
            },
        ),
{
    lemma_tags();
}

/// The name under which an item is shown: behind a rarity the next line, and the next two with a
/// dash between for a rare, unique or relic item; without a rarity the first line.
pub proof fn items_are_shown_by_their_names(content: Seq<char>, rarity: Seq<char>)
    ensures
        filled(content).len() == 0 ==> shown_name(content).len() == 0,
        filled(content).len() > 0 && !begins_with(filled(content)[0], "Rarity: "@) ==> shown_name(
            content,
        ) == filled(content)[0],
        filled(content).len() > 0 && filled(content)[0] == "Rarity: "@ + rarity ==> ({
            let lines = filled(content);
            let named = rarity == "RARE"@ || rarity == "UNIQUE"@ || rarity == "RELIC"@;
            &&& named && lines.len() >= 3 ==> shown_name(content) == lines[1] + " — "@ + lines[2]
            &&& named && lines.len() < 3 ==> shown_name(content).len() == 0
            &&& !named && lines.len() >= 2 ==> shown_name(content) == lines[1]
            &&& !named && lines.len() < 2 ==> shown_name(content).len() == 0
        }),
{
    a_text_begins_with_its_front("Rarity: "@, rarity);
}

// ---------------------------------------------------------------- errors

/// Whether an attribute cannot be read.
pub open spec fn is_unreadable(attributes: Seq<Option<AttributeTexts>>, name: Seq<char>) -> bool {
    attribute_in(attributes, name) is Err
}

/// An attribute that is needed and cannot be read is an error: of the character, of a statistic, of
/// sets, groups, gems, items and slots. A gem that is switched off needs no name, and only the main
/// group needs to say whether it is switched off.
pub proof fn unreadable_attributes_are_errors(
    s: ReadSoFar,
    empty: bool,
    attributes: Seq<Option<AttributeTexts>>,
    enabled: Option<Seq<char>>,
)
    ensures
        is_unreadable(attributes, "level"@) || is_unreadable(attributes, "className"@)
            || is_unreadable(attributes, "ascendClassName"@) || is_unreadable(
            attributes,
            "mainSkill"@,
        ) || is_unreadable(attributes, "mainSocketGroup"@) ==> with_event(
            s,
            tag("Build"@, false, attributes),
        ) is Err,
        is_unreadable(attributes, "stat"@) || is_unreadable(attributes, "value"@) ==> with_event(
            s,
            tag("PlayerStat"@, empty, attributes),
        ) is Err,
        is_unreadable(attributes, "activeSkillSet"@) ==> with_event(
            s,
            tag("Skills"@, false, attributes),
        ) is Err,
        is_unreadable(attributes, "activeItemSet"@) ==> with_event(
            s,
            tag("Items"@, false, attributes),
        ) is Err,
        is_unreadable(attributes, "id"@) ==> with_event(s, tag("SkillSet"@, false, attributes)) is Err
            && with_event(s, tag("ItemSet"@, false, attributes)) is Err && with_event(
            s,
            tag("Item"@, false, attributes),
        ) is Err,
        in_use(s.active_skill_set, s.skill_set) && (is_unreadable(attributes, "mainActiveSkill"@)
            || s.group + 1 == s.main_group && is_unreadable(attributes, "enabled"@)) ==> with_event(
            s,
            tag("Skill"@, false, attributes),
        ) is Err,
        in_use(s.active_skill_set, s.skill_set) && s.group + 1 != s.main_group && !is_unreadable(
            attributes,
            "mainActiveSkill"@,
        ) ==> with_event(s, tag("Skill"@, false, attributes)) is Ok,
        in_use(s.active_skill_set, s.skill_set) && (is_unreadable(attributes, "enabled"@) || says(
            attributes,
            "enabled"@,
            enabled,
        ) && enabled != Some("false"@) && (is_unreadable(attributes, "nameSpec"@) || is_unreadable(
            attributes,
            "skillId"@,
        ))) ==> with_event(s, tag("Gem"@, empty, attributes)) is Err,
        says(attributes, "enabled"@, Some("false"@)) ==> becomes(
            s,
            tag("Gem"@, empty, attributes),
            s,
        ),
        in_use(s.active_item_set, s.item_set) && (is_unreadable(attributes, "name"@)
            || is_unreadable(attributes, "itemId"@)) ==> with_event(
            s,
            tag("Slot"@, empty, attributes),
        ) is Err,
{
    lemma_tags();
}

// ---------------------------------------------------------------- the build

/// A build tells the level, class, ascendancy, main skill and statistics that were read, each gem
/// once and in the order of the names.
pub proof fn a_build_tells_what_was_read(b: PobBuild, s: ReadSoFar, i: int, j: int)
    requires
        is_build(b, s),
    ensures
        s.level matches Some(n) ==> b.level is Some && b.level->0 == n,
        s.level is None ==> b.level is None,
        b.class_name@ == s.class_name,
        b.ascendancy@ == s.ascendancy,
        b.main_skill@ == s.main_skill,
        b.stats@.len() == s.stats.len(),
        0 <= i < s.stats.len() ==> b.stats@[i].name@ == s.stats[i].0 && b.stats@[i].value@
            == s.stats[i].1,
        forall|gem: Seq<char>| #[trigger]
            views(b.skill_gems@).contains(gem) <==> s.gems.contains(gem),
        0 <= i < j < b.skill_gems@.len() ==> precedes(b.skill_gems@[i]@, b.skill_gems@[j]@),
{
    assert(stat_texts(b.stats@).len() == b.stats@.len());
    if 0 <= i < s.stats.len() {
        assert(stat_texts(b.stats@)[i] == (b.stats@[i].name@, b.stats@[i].value@));
    }
    if 0 <= i < j < b.skill_gems@.len() {
        assert(views(b.skill_gems@)[i] == b.skill_gems@[i]@);
        assert(views(b.skill_gems@)[j] == b.skill_gems@[j]@);
    }
}

/// The equipment of a build holds each slot once and in order, with the name of its item; a slot
/// whose item has no name, or is not there, is left out.
pub proof fn a_build_wears_what_its_slots_hold(
    b: PobBuild,
    s: ReadSoFar,
    i: int,
    j: int,
    slot: Seq<char>,
)
    requires
        is_build(b, s),
    ensures
        0 <= i < j < b.equipment@.len() ==> precedes(b.equipment@[i].slot@, b.equipment@[j].slot@),
        0 <= i < b.equipment@.len() ==> {
            let worn = b.equipment@[i];
            &&& s.slots.contains_key(worn.slot@)
            &&& s.items.contains_key(s.slots[worn.slot@])
            &&& worn.name@ == s.items[s.slots[worn.slot@]]
            &&& worn.name@.len() > 0
        },
        s.slots.contains_key(slot) && s.items.contains_key(s.slots[slot])
            && s.items[s.slots[slot]].len() > 0 ==> exists|k: int|
            0 <= k < b.equipment@.len() && (#[trigger] b.equipment@[k]).slot@ == slot
                && b.equipment@[k].name@ == s.items[s.slots[slot]],
{
    let list = equipment_texts(b.equipment@);
    let held = worn(s.items, s.slots);
    map_holds_the_pairs(list);
    assert(list.len() == b.equipment@.len() && keys_of(list).len() == list.len());
    assert forall|k: int| 0 <= k < list.len() implies list[k] == (
        (#[trigger] b.equipment@[k]).slot@,
        b.equipment@[k].name@,
    ) && keys_of(list)[k] == b.equipment@[k].slot@ by {}
    if 0 <= i < b.equipment@.len() {
        let e = b.equipment@[i];
        assert(keys_of(list)[i] == e.slot@);
        assert(map_of(list).contains_key(e.slot@));
        assert(map_of(list)[e.slot@] == e.name@);
        assert(held.contains_key(e.slot@));
    }
    if s.slots.contains_key(slot) && s.items.contains_key(s.slots[slot])
        && s.items[s.slots[slot]].len() > 0 {
        assert(held.contains_key(slot));
        assert(map_of(list).contains_key(slot));
        let k = choose|k: int| 0 <= k < keys_of(list).len() && keys_of(list)[k] == slot;
        assert(b.equipment@[k].slot@ == slot);
        assert(map_of(list)[slot] == list[k].1);
    }
}

} // verus!
