//! The documents in which Path of Building writes a build.

use vstd::prelude::*;
use vstd::string::*;
use crate::number::{parse_u32, parse_usize, unsigned_in};
use crate::order::{
    ascending, keys_of, lists_in_order, map_holds_the_pairs, map_of, order_fixes_the_entries,
    order_fixes_the_list, order_is_strict, precedes, sort_distinct, TextMap,
};
use crate::pob::{PobBuild, PobEquipment, PobError, PobStat};
use crate::text::{
    begins_with, behind, ends_in, ends_with, filled_lines, lines, lines_of, option_text, same_text,
    starts_with, strip_prefix, trim, views,
};
use crate::xml::{
    all_readable, attribute_views, event_views, leading_events, read_document, xml_events,
    AttributeTexts, EventTexts, XmlAttribute, XmlEvent,
};

verus! {

// ---------------------------------------------------------------- attributes

/// The value of the first attribute with the name. A malformed attribute in front of it, and a
/// value that cannot be read, are errors.
pub open spec fn attribute_in(attributes: Seq<Option<AttributeTexts>>, name: Seq<char>) -> Result<
    Option<Seq<char>>,
    PobError,
>
    decreases attributes.len(),
{
    if attributes.len() == 0 {
        Ok(None)
    } else {
        match attributes[0] {
            None => Err(PobError::InvalidAttribute),
            Some(attribute) => if attribute.key == name {
                match attribute.value {
                    Some(value) => Ok(Some(value)),
                    None => Err(PobError::UnreadableAttribute),
                }
            } else {
                attribute_in(attributes.skip(1), name)
            },
        }
    }
}

fn attribute(attributes: &Vec<Option<XmlAttribute>>, name: &str) -> (r: Result<
    Option<String>,
    PobError,
>)
    ensures
        match r {
            Ok(value) => attribute_in(attribute_views(attributes@), name@) == Ok::<
                Option<Seq<char>>,
                PobError,
            >(option_text(value)),
            Err(e) => attribute_in(attribute_views(attributes@), name@) == Err::<
                Option<Seq<char>>,
                PobError,
            >(e),
        },
{
    let ghost all = attribute_views(attributes@);
    let mut i: usize = 0;
    assert(all.skip(0) =~= all);
    while i < attributes.len()
        invariant
            i <= attributes@.len(),
            all == attribute_views(attributes@),
            attribute_in(all.skip(i as int), name@) == attribute_in(all, name@),
        decreases attributes@.len() - i,
    {
        proof {
            assert(all.skip(i as int)[0] == all[i as int]);
            assert(all.skip(i as int).skip(1) =~= all.skip(i + 1));
        }
        match &attributes[i] {
            None => {
                return Err(PobError::InvalidAttribute);
            },
            Some(attribute) => {
                if same_text(&attribute.key, name) {
                    return match &attribute.value {
                        Some(value) => Ok(Some(value.clone())),
                        None => Err(PobError::UnreadableAttribute),
                    };
                }
            },
        }
        i = i + 1;
    }
    Ok(None)
}

// ---------------------------------------------------------------- texts

/// A text, or nothing where it is missing.
pub open spec fn or_empty(text: Option<Seq<char>>) -> Seq<char> {
    match text {
        Some(text) => text,
        None => Seq::empty(),
    }
}

fn text_or_empty(text: Option<String>) -> (r: String)
    ensures
        r@ == or_empty(option_text(text)),
{
    match text {
        Some(text) => text,
        None => String::new(),
    }
}

/// Whether the set that is being read is the one in use; without names every set is.
pub open spec fn is_active_set(active: Seq<char>, current: Seq<char>) -> bool {
    current.len() == 0 || active.len() == 0 || active == current
}

/// Whether the skill set that is being read is the one in use.
pub fn skill_set_is_active(active: &str, current: &str) -> (r: bool)
    ensures
        r == is_active_set(active@, current@),
{
    current.is_empty() || active.is_empty() || same_text(active, current)
}

/// Whether the item set that is being read is the one in use.
pub fn item_set_is_active(active: &str, current: &str) -> (r: bool)
    ensures
        r == is_active_set(active@, current@),
{
    current.is_empty() || active.is_empty() || same_text(active, current)
}

/// Whether a gem of this name supports other gems.
pub open spec fn names_support(name: Seq<char>) -> bool {
    ends_in(name, " Support"@) || begins_with(name, "Support"@)
}

/// Whether a gem of this name supports other gems.
pub fn is_support_gem(name: &str) -> (r: bool)
    ensures
        r == names_support(name@),
{
    ends_with(name, " Support") || starts_with(name, "Support")
}

/// The name under which an item's text shows the item: the first line; or, behind a line that tells
/// the rarity, the next line, and for a rare, unique or relic item the next two.
pub open spec fn shown_name(content: Seq<char>) -> Seq<char> {
    let lines = filled_lines(lines_of(content));
    if lines.len() == 0 {
        Seq::empty()
    } else {
        match behind(lines[0], "Rarity: "@) {
            None => lines[0],
            Some(rarity) => if rarity == "RARE"@ || rarity == "UNIQUE"@ || rarity == "RELIC"@ {
                if lines.len() >= 3 {
                    lines[1] + " — "@ + lines[2]
                } else {
                    Seq::empty()
                }
            } else if lines.len() >= 2 {
                lines[1]
            } else {
                Seq::empty()
            },
        }
    }
}

fn keep_filled(lines: &Vec<String>) -> (r: Vec<String>)
    ensures
        views(r@) == filled_lines(views(lines@)),
{
    let ghost all = views(lines@);
    let mut out: Vec<String> = Vec::new();
    let mut i: usize = 0;
    assert(views(out@) =~= Seq::empty());
    while i < lines.len()
        invariant
            i <= lines@.len(),
            all == views(lines@),
            views(out@) == filled_lines(all.take(i as int)),
        decreases lines@.len() - i,
    {
        let line = trim(&lines[i]);
        let ghost before = views(out@);
        proof {
            assert(all.take(i + 1).drop_last() =~= all.take(i as int));
            assert(all.take(i + 1).last() == all[i as int]);
        }
        if !line.is_empty() {
            out.push(line.to_string());
            assert(views(out@) =~= before.push(line@));
        }
        i = i + 1;
    }
    assert(all.take(i as int) =~= all);
    out
}

/// The name under which an item's text shows the item.
pub fn item_display_name(content: &str) -> (r: String)
    ensures
        r@ == shown_name(content@),
{
    let lines = keep_filled(&lines(content));
    let ghost all = views(lines@);
    if lines.len() == 0 {
        return String::new();
    }
    assert(all[0] == lines@[0]@);
    match strip_prefix(&lines[0], "Rarity: ") {
        None => lines[0].clone(),
        Some(rarity) => {
            if same_text(rarity, "RARE") || same_text(rarity, "UNIQUE") || same_text(
                rarity,
                "RELIC",
            ) {
                if lines.len() >= 3 {
                    let mut name = lines[1].clone();
                    name.append(" — ");
                    name.append(&lines[2]);
                    assert(all[1] == lines@[1]@);
                    assert(all[2] == lines@[2]@);
                    name
                } else {
                    String::new()
                }
            } else if lines.len() >= 2 {
                assert(all[1] == lines@[1]@);
                lines[1].clone()
            } else {
                String::new()
            }
        },
    }
}

// ---------------------------------------------------------------- reading a document

/// What has been read of a document.
pub struct ReadSoFar {
    /// Whether the root of a Path of Building document was seen.
    pub rooted: bool,
    pub level: Option<int>,
    pub class_name: Seq<char>,
    pub ascendancy: Seq<char>,
    pub main_skill: Seq<char>,
    pub stats: Seq<(Seq<char>, Seq<char>)>,
    pub gems: Seq<Seq<char>>,
    /// The name of each item under its number.
    pub items: Map<Seq<char>, Seq<char>>,
    /// The number of the item in each slot.
    pub slots: Map<Seq<char>, Seq<char>>,
    /// The number and the text of the item that is being read.
    pub open_item: Option<(Seq<char>, Seq<char>)>,
    pub active_item_set: Seq<char>,
    pub item_set: Seq<char>,
    pub active_skill_set: Seq<char>,
    pub skill_set: Seq<char>,
    /// Which skill group of the active set is the main one, counted from one.
    pub main_group: int,
    /// How many skill groups of the set were seen.
    pub group: int,
    pub in_main_group: bool,
    /// Which active gem of the main group is the main one, counted from one.
    pub main_gem: int,
    /// The active gems of the main group.
    pub main_gems: Seq<Seq<char>>,
}

/// Before anything is read.
pub open spec fn nothing_read() -> ReadSoFar {
    ReadSoFar {
        rooted: false,
        level: None,
        class_name: Seq::empty(),
        ascendancy: Seq::empty(),
        main_skill: Seq::empty(),
        stats: Seq::empty(),
        gems: Seq::empty(),
        items: Map::empty(),
        slots: Map::empty(),
        open_item: None,
        active_item_set: Seq::empty(),
        item_set: Seq::empty(),
        active_skill_set: Seq::empty(),
        skill_set: Seq::empty(),
        main_group: 1,
        group: 0,
        in_main_group: false,
        main_gem: 1,
        main_gems: Seq::empty(),
    }
}

/// The number that an attribute writes; one where it is missing or no number.
pub open spec fn position_or_one(value: Option<Seq<char>>) -> int {
    match value {
        Some(text) => match unsigned_in(text, usize::MAX as int) {
            Some(n) => n,
            None => 1,
        },
        None => 1,
    }
}

/// The level that an attribute writes.
pub open spec fn level_in(value: Option<Seq<char>>) -> Option<int> {
    match value {
        Some(text) => unsigned_in(text, u32::MAX as int),
        None => None,
    }
}

/// Reads `Build`: level, class, ascendancy, main skill and main group.
pub open spec fn with_build(s: ReadSoFar, attributes: Seq<Option<AttributeTexts>>) -> Result<
    ReadSoFar,
    PobError,
> {
    match attribute_in(attributes, "level"@) {
        Err(e) => Err(e),
        Ok(level) => match attribute_in(attributes, "className"@) {
            Err(e) => Err(e),
            Ok(class_name) => match attribute_in(attributes, "ascendClassName"@) {
                Err(e) => Err(e),
                Ok(ascendancy) => match attribute_in(attributes, "mainSkill"@) {
                    Err(e) => Err(e),
                    Ok(main_skill) => match attribute_in(attributes, "mainSocketGroup"@) {
                        Err(e) => Err(e),
                        Ok(group) => Ok(
                            ReadSoFar {
                                level: level_in(level),
                                class_name: or_empty(class_name),
                                ascendancy: or_empty(ascendancy),
                                main_skill: or_empty(main_skill),
                                main_group: position_or_one(group),
                                ..s
                            },
                        ),
                    },
                },
            },
        },
    }
}

/// Reads `PlayerStat`: a statistic, where both its name and its value are given.
pub open spec fn with_stat(s: ReadSoFar, attributes: Seq<Option<AttributeTexts>>) -> Result<
    ReadSoFar,
    PobError,
> {
    match attribute_in(attributes, "stat"@) {
        Err(e) => Err(e),
        Ok(name) => match attribute_in(attributes, "value"@) {
            Err(e) => Err(e),
            Ok(value) => match (name, value) {
                (Some(name), Some(value)) => Ok(
                    ReadSoFar { stats: s.stats.push((name, value)), ..s },
                ),
                _ => Ok(s),
            },
        },
    }
}

/// Reads `SkillSet`: the groups of an active set are counted anew.
pub open spec fn with_skill_set(s: ReadSoFar, attributes: Seq<Option<AttributeTexts>>) -> Result<
    ReadSoFar,
    PobError,
> {
    match attribute_in(attributes, "id"@) {
        Err(e) => Err(e),
        Ok(id) => Ok(
            ReadSoFar {
                skill_set: or_empty(id),
                group: if is_active_set(s.active_skill_set, or_empty(id)) {
                    0
                } else {
                    s.group
                },
                ..s
            },
        ),
    }
}

/// Reads `Skill` of an active set: the next group, which is the main one where its number is that
/// of the main group and it is not switched off.
pub open spec fn with_skill(s: ReadSoFar, attributes: Seq<Option<AttributeTexts>>) -> Result<
    ReadSoFar,
    PobError,
> {
    let group = s.group + 1;
    let enabled = attribute_in(attributes, "enabled"@);
    if group == s.main_group && enabled is Err {
        Err(enabled->Err_0)
    } else {
        match attribute_in(attributes, "mainActiveSkill"@) {
            Err(e) => Err(e),
            Ok(main_gem) => Ok(
                ReadSoFar {
                    group,
                    in_main_group: group == s.main_group && enabled->Ok_0 != Some("false"@),
                    main_gem: position_or_one(main_gem),
                    main_gems: Seq::empty(),
                    ..s
                },
            ),
        }
    }
}

/// The name of a gem that is not switched off; a gem may be named in either of two ways.
pub open spec fn gem_name(attributes: Seq<Option<AttributeTexts>>) -> Result<
    Option<Seq<char>>,
    PobError,
> {
    match attribute_in(attributes, "enabled"@) {
        Err(e) => Err(e),
        Ok(enabled) => if enabled == Some("false"@) {
            Ok(None)
        } else {
            match attribute_in(attributes, "nameSpec"@) {
                Err(e) => Err(e),
                Ok(by_name) => match attribute_in(attributes, "skillId"@) {
                    Err(e) => Err(e),
                    Ok(by_id) => {
                        let name = if by_name is Some {
                            by_name
                        } else {
                            by_id
                        };
                        if name is Some && name->0.len() > 0 {
                            Ok(name)
                        } else {
                            Ok(None)
                        }
                    },
                },
            }
        },
    }
}

/// Reads `Gem` of an active set: every gem is listed, and those of the main group that are no
/// supports are its active gems.
pub open spec fn with_gem(s: ReadSoFar, attributes: Seq<Option<AttributeTexts>>) -> Result<
    ReadSoFar,
    PobError,
> {
    match gem_name(attributes) {
        Err(e) => Err(e),
        Ok(None) => Ok(s),
        Ok(Some(name)) => Ok(
            ReadSoFar {
                gems: s.gems.push(name),
                main_gems: if s.in_main_group && !names_support(name) {
                    s.main_gems.push(name)
                } else {
                    s.main_gems
                },
                ..s
            },
        ),
    }
}

/// Reads `Slot` of an active set: the slot holds an item unless the number is zero.
pub open spec fn with_slot(s: ReadSoFar, attributes: Seq<Option<AttributeTexts>>) -> Result<
    ReadSoFar,
    PobError,
> {
    match attribute_in(attributes, "name"@) {
        Err(e) => Err(e),
        Ok(name) => match attribute_in(attributes, "itemId"@) {
            Err(e) => Err(e),
            Ok(item) => match (name, item) {
                (Some(name), Some(item)) => if item != "0"@ {
                    Ok(ReadSoFar { slots: s.slots.insert(name, item), ..s })
                } else {
                    Ok(s)
                },
                _ => Ok(s),
            },
        },
    }
}

/// Reads `Item`: the text of a numbered item follows.
pub open spec fn with_item(s: ReadSoFar, attributes: Seq<Option<AttributeTexts>>) -> Result<
    ReadSoFar,
    PobError,
> {
    match attribute_in(attributes, "id"@) {
        Err(e) => Err(e),
        Ok(None) => Ok(s),
        Ok(Some(id)) => Ok(ReadSoFar { open_item: Some((id, Seq::empty())), ..s }),
    }
}

/// Reads a start tag.
pub open spec fn with_start(
    s: ReadSoFar,
    name: Seq<char>,
    attributes: Seq<Option<AttributeTexts>>,
) -> Result<ReadSoFar, PobError> {
    if name == "PathOfBuilding"@ {
        Ok(ReadSoFar { rooted: true, ..s })
    } else if name == "Build"@ {
        with_build(s, attributes)
    } else if name == "Skills"@ {
        match attribute_in(attributes, "activeSkillSet"@) {
            Err(e) => Err(e),
            Ok(set) => Ok(ReadSoFar { active_skill_set: or_empty(set), ..s }),
        }
    } else if name == "SkillSet"@ {
        with_skill_set(s, attributes)
    } else if name == "Skill"@ && is_active_set(s.active_skill_set, s.skill_set) {
        with_skill(s, attributes)
    } else if name == "Items"@ {
        match attribute_in(attributes, "activeItemSet"@) {
            Err(e) => Err(e),
            Ok(set) => Ok(ReadSoFar { active_item_set: or_empty(set), ..s }),
        }
    } else if name == "ItemSet"@ {
        match attribute_in(attributes, "id"@) {
            Err(e) => Err(e),
            Ok(id) => Ok(ReadSoFar { item_set: or_empty(id), ..s }),
        }
    } else if name == "Item"@ {
        with_item(s, attributes)
    } else {
        with_leaf(s, name, attributes)
    }
}

/// Reads a tag that needs no end tag.
pub open spec fn with_leaf(
    s: ReadSoFar,
    name: Seq<char>,
    attributes: Seq<Option<AttributeTexts>>,
) -> Result<ReadSoFar, PobError> {
    if name == "PlayerStat"@ {
        with_stat(s, attributes)
    } else if name == "Gem"@ && is_active_set(s.active_skill_set, s.skill_set) {
        with_gem(s, attributes)
    } else if name == "Slot"@ && is_active_set(s.active_item_set, s.item_set) {
        with_slot(s, attributes)
    } else {
        Ok(s)
    }
}

/// The main skill of the main group: the active gem that the group names, or else its first one.
pub open spec fn main_skill_of(gems: Seq<Seq<char>>, main_gem: int) -> Seq<char> {
    let index = if main_gem > 0 {
        main_gem - 1
    } else {
        0
    };
    if index < gems.len() {
        gems[index]
    } else if gems.len() > 0 {
        gems[0]
    } else {
        Seq::empty()
    }
}

/// Reads an end tag.
pub open spec fn with_end(s: ReadSoFar, name: Seq<char>) -> ReadSoFar {
    if name == "Item"@ {
        match s.open_item {
            Some((id, content)) => ReadSoFar {
                items: s.items.insert(id, shown_name(content)),
                open_item: None,
                ..s
            },
            None => s,
        }
    } else if name == "ItemSet"@ {
        ReadSoFar { item_set: Seq::empty(), ..s }
    } else if name == "Skill"@ {
        ReadSoFar {
            main_skill: if s.in_main_group && s.main_skill.len() == 0 {
                main_skill_of(s.main_gems, s.main_gem)
            } else {
                s.main_skill
            },
            in_main_group: false,
            main_gems: Seq::empty(),
            ..s
        }
    } else if name == "SkillSet"@ {
        ReadSoFar { skill_set: Seq::empty(), ..s }
    } else {
        s
    }
}

/// Reads text, which counts inside an item alone.
pub open spec fn with_text(s: ReadSoFar, text: Option<Seq<char>>) -> Result<ReadSoFar, PobError> {
    match s.open_item {
        None => Ok(s),
        Some((id, content)) => match text {
            Some(text) => Ok(ReadSoFar { open_item: Some((id, content + text)), ..s }),
            None => Err(PobError::InvalidItemText),
        },
    }
}

/// Reads one event.
pub open spec fn with_event(s: ReadSoFar, event: EventTexts) -> Result<ReadSoFar, PobError> {
    match event {
        EventTexts::Open { name, empty, attributes } => if empty {
            with_leaf(s, name, attributes)
        } else {
            with_start(s, name, attributes)
        },
        EventTexts::Close(name) => Ok(with_end(s, name)),
        EventTexts::Text(text) => with_text(s, text),
        EventTexts::Other => Ok(s),
    }
}

/// Reads events one after the other, up to the first error.
pub open spec fn with_events(events: Seq<EventTexts>) -> Result<ReadSoFar, PobError>
    decreases events.len(),
{
    if events.len() == 0 {
        Ok(nothing_read())
    } else {
        match with_events(events.drop_last()) {
            Err(e) => Err(e),
            Ok(s) => with_event(s, events.last()),
        }
    }
}

/// What is read of a whole document: an error among its events comes first, then a document that
/// breaks off, then one of another kind.
pub open spec fn read_build(events: Seq<EventTexts>, complete: bool) -> Result<
    ReadSoFar,
    PobError,
> {
    match with_events(events) {
        Err(e) => Err(e),
        Ok(s) => if !complete {
            Err(PobError::InvalidXml)
        } else if !s.rooted {
            Err(PobError::NotPathOfBuilding)
        } else {
            Ok(s)
        },
    }
}

/// Skill groups and gems of a skill set that is not in use are left out.
pub proof fn other_skill_sets_are_left_out(
    s: ReadSoFar,
    name: Seq<char>,
    empty: bool,
    attributes: Seq<Option<AttributeTexts>>,
)
    requires
        !is_active_set(s.active_skill_set, s.skill_set),
        name == "Skill"@ || name == "Gem"@,
    ensures
        with_event(s, EventTexts::Open { name, empty, attributes }) == Ok::<ReadSoFar, PobError>(s),
{
    lemma_tag_name(name);
}

/// Slots of an item set that is not in use are left out.
pub proof fn other_item_sets_are_left_out(
    s: ReadSoFar,
    empty: bool,
    attributes: Seq<Option<AttributeTexts>>,
)
    requires
        !is_active_set(s.active_item_set, s.item_set),
    ensures
        with_event(s, EventTexts::Open { name: "Slot"@, empty, attributes }) == Ok::<
            ReadSoFar,
            PobError,
        >(s),
{
    lemma_tag_name("Slot"@);
}

proof fn lemma_tag_name(name: Seq<char>)
    requires
        name == "Skill"@ || name == "Gem"@ || name == "Slot"@,
    ensures
        name != "PathOfBuilding"@,
        name != "Build"@,
        name != "Skills"@,
        name != "SkillSet"@,
        name != "Items"@,
        name != "ItemSet"@,
        name != "Item"@,
        name != "PlayerStat"@,
        name != "Gem"@ ==> name == "Skill"@ || name == "Slot"@,
        "Slot"@ != "Skill"@,
        "Slot"@ != "Gem"@,
        "Skill"@ != "Gem"@,
{
    reveal_strlit("PathOfBuilding");
    reveal_strlit("Build");
    reveal_strlit("Skills");
    reveal_strlit("SkillSet");
    reveal_strlit("Skill");
    reveal_strlit("Items");
    reveal_strlit("ItemSet");
    reveal_strlit("Item");
    reveal_strlit("PlayerStat");
    reveal_strlit("Gem");
    reveal_strlit("Slot");
    assert("PathOfBuilding"@.len() == 14);
    assert("Skills"@.len() == 6);
    assert("SkillSet"@.len() == 8);
    assert("PlayerStat"@.len() == 10);
    assert("ItemSet"@.len() == 7);
    assert("Build"@[0] != "Skill"@[0]);
    assert("Items"@[0] != "Skill"@[0]);
    assert("Slot"@[1] != "Item"@[1]);
}

/// What has been read of a document.
struct Reading {
    rooted: bool,
    level: Option<u32>,
    class_name: String,
    ascendancy: String,
    main_skill: String,
    stats: Vec<PobStat>,
    gems: Vec<String>,
    items: TextMap,
    slots: TextMap,
    open_item: Option<(String, String)>,
    active_item_set: String,
    item_set: String,
    active_skill_set: String,
    skill_set: String,
    main_group: usize,
    group: usize,
    in_main_group: bool,
    main_gem: usize,
    main_gems: Vec<String>,
}

/// The names and values of a list of statistics.
pub open spec fn stat_texts(stats: Seq<PobStat>) -> Seq<(Seq<char>, Seq<char>)> {
    stats.map_values(|s: PobStat| (s.name@, s.value@))
}

/// The number of a level.
pub open spec fn level_number(level: Option<u32>) -> Option<int> {
    match level {
        Some(level) => Some(level as int),
        None => None,
    }
}

impl View for Reading {
    type V = ReadSoFar;

    closed spec fn view(&self) -> ReadSoFar {
        ReadSoFar {
            rooted: self.rooted,
            level: level_number(self.level),
            class_name: self.class_name@,
            ascendancy: self.ascendancy@,
            main_skill: self.main_skill@,
            stats: stat_texts(self.stats@),
            gems: views(self.gems@),
            items: self.items@,
            slots: self.slots@,
            open_item: match self.open_item {
                Some((id, content)) => Some((id@, content@)),
                None => None,
            },
            active_item_set: self.active_item_set@,
            item_set: self.item_set@,
            active_skill_set: self.active_skill_set@,
            skill_set: self.skill_set@,
            main_group: self.main_group as int,
            group: self.group as int,
            in_main_group: self.in_main_group,
            main_gem: self.main_gem as int,
            main_gems: views(self.main_gems@),
        }
    }
}

/// Whether a step of the reader went as `expected` says.
spec fn went_as(expected: Result<ReadSoFar, PobError>, r: Result<(), PobError>, s: ReadSoFar) -> bool {
    match r {
        Ok(()) => expected == Ok::<ReadSoFar, PobError>(s),
        Err(e) => expected == Err::<ReadSoFar, PobError>(e),
    }
}

fn read_position(value: Option<String>) -> (r: usize)
    ensures
        r == position_or_one(option_text(value)),
{
    match value {
        Some(text) => match parse_usize(&text) {
            Some(n) => n,
            None => 1,
        },
        None => 1,
    }
}

fn is_false(value: &Option<String>) -> (r: bool)
    ensures
        r == (option_text(*value) == Some("false"@)),
{
    match value {
        Some(text) => same_text(text, "false"),
        None => false,
    }
}

fn active_gem_name(attributes: &Vec<Option<XmlAttribute>>) -> (r: Result<Option<String>, PobError>)
    ensures
        match r {
            Ok(name) => gem_name(attribute_views(attributes@)) == Ok::<
                Option<Seq<char>>,
                PobError,
            >(option_text(name)),
            Err(e) => gem_name(attribute_views(attributes@)) == Err::<
                Option<Seq<char>>,
                PobError,
            >(e),
        },
{
    if is_false(&attribute(attributes, "enabled")?) {
        return Ok(None);
    }
    let by_name = attribute(attributes, "nameSpec")?;
    let by_id = attribute(attributes, "skillId")?;
    let name = if by_name.is_some() {
        by_name
    } else {
        by_id
    };
    match name {
        Some(name) => if name.as_str().is_empty() {
            Ok(None)
        } else {
            Ok(Some(name))
        },
        None => Ok(None),
    }
}

impl Reading {
    fn new() -> (r: Self)
        ensures
            r@ == nothing_read(),
    {
        let r = Reading {
            rooted: false,
            level: None,
            class_name: String::new(),
            ascendancy: String::new(),
            main_skill: String::new(),
            stats: Vec::new(),
            gems: Vec::new(),
            items: TextMap::new(),
            slots: TextMap::new(),
            open_item: None,
            active_item_set: String::new(),
            item_set: String::new(),
            active_skill_set: String::new(),
            skill_set: String::new(),
            main_group: 1,
            group: 0,
            in_main_group: false,
            main_gem: 1,
            main_gems: Vec::new(),
        };
        proof {
            assert(stat_texts(r.stats@) =~= Seq::empty());
            assert(views(r.gems@) =~= Seq::empty());
            assert(views(r.main_gems@) =~= Seq::empty());
        }
        r
    }

    fn build(&mut self, attributes: &Vec<Option<XmlAttribute>>) -> (r: Result<(), PobError>)
        ensures
            went_as(with_build(old(self)@, attribute_views(attributes@)), r, final(self)@),
            final(self)@.group == old(self)@.group,
    {
        let level = attribute(attributes, "level")?;
        let class_name = attribute(attributes, "className")?;
        let ascendancy = attribute(attributes, "ascendClassName")?;
        let main_skill = attribute(attributes, "mainSkill")?;
        let group = attribute(attributes, "mainSocketGroup")?;
        self.level = match level {
            Some(text) => parse_u32(&text),
            None => None,
        };
        self.class_name = text_or_empty(class_name);
        self.ascendancy = text_or_empty(ascendancy);
        self.main_skill = text_or_empty(main_skill);
        self.main_group = read_position(group);
        Ok(())
    }

    fn stat(&mut self, attributes: &Vec<Option<XmlAttribute>>) -> (r: Result<(), PobError>)
        ensures
            went_as(with_stat(old(self)@, attribute_views(attributes@)), r, final(self)@),
            final(self)@.group == old(self)@.group,
    {
        let name = attribute(attributes, "stat")?;
        let value = attribute(attributes, "value")?;
        if let Some(name) = name {
            if let Some(value) = value {
                let ghost before = self.stats@;
                let stat = PobStat { name, value };
                self.stats.push(stat);
                assert(stat_texts(self.stats@) =~= stat_texts(before).push((name@, value@)));
            }
        }
        Ok(())
    }

    fn skill_set(&mut self, attributes: &Vec<Option<XmlAttribute>>) -> (r: Result<(), PobError>)
        ensures
            went_as(with_skill_set(old(self)@, attribute_views(attributes@)), r, final(self)@),
            final(self)@.group <= old(self)@.group,
    {
        self.skill_set = text_or_empty(attribute(attributes, "id")?);
        if skill_set_is_active(&self.active_skill_set, &self.skill_set) {
            self.group = 0;
        }
        Ok(())
    }

    fn skill(&mut self, attributes: &Vec<Option<XmlAttribute>>) -> (r: Result<(), PobError>)
        requires
            old(self)@.group < usize::MAX,
        ensures
            went_as(with_skill(old(self)@, attribute_views(attributes@)), r, final(self)@),
            final(self)@.group <= old(self)@.group + 1,
    {
        let group: usize = self.group + 1;
        let in_main_group = group == self.main_group && !is_false(
            &attribute(attributes, "enabled")?,
        );
        let main_gem = attribute(attributes, "mainActiveSkill")?;
        self.group = group;
        self.in_main_group = in_main_group;
        self.main_gem = read_position(main_gem);
        self.main_gems = Vec::new();
        assert(views(self.main_gems@) =~= Seq::empty());
        Ok(())
    }

    fn gem(&mut self, attributes: &Vec<Option<XmlAttribute>>) -> (r: Result<(), PobError>)
        ensures
            went_as(with_gem(old(self)@, attribute_views(attributes@)), r, final(self)@),
            final(self)@.group == old(self)@.group,
    {
        if let Some(name) = active_gem_name(attributes)? {
            let ghost gems = self.gems@;
            let ghost main_gems = self.main_gems@;
            if self.in_main_group && !is_support_gem(&name) {
                self.main_gems.push(name.clone());
                assert(views(self.main_gems@) =~= views(main_gems).push(name@));
            }
            self.gems.push(name);
            assert(views(self.gems@) =~= views(gems).push(name@));
        }
        Ok(())
    }

    fn slot(&mut self, attributes: &Vec<Option<XmlAttribute>>) -> (r: Result<(), PobError>)
        ensures
            went_as(with_slot(old(self)@, attribute_views(attributes@)), r, final(self)@),
            final(self)@.group == old(self)@.group,
    {
        let name = attribute(attributes, "name")?;
        let item = attribute(attributes, "itemId")?;
        if let Some(name) = name {
            if let Some(item) = item {
                if !same_text(&item, "0") {
                    self.slots.insert(name, item);
                }
            }
        }
        Ok(())
    }

    fn leaf(&mut self, name: &str, attributes: &Vec<Option<XmlAttribute>>) -> (r: Result<
        (),
        PobError,
    >)
        ensures
            went_as(with_leaf(old(self)@, name@, attribute_views(attributes@)), r, final(self)@),
            final(self)@.group == old(self)@.group,
    {
        if same_text(name, "PlayerStat") {
            self.stat(attributes)
        } else if same_text(name, "Gem") && skill_set_is_active(
            &self.active_skill_set,
            &self.skill_set,
        ) {
            self.gem(attributes)
        } else if same_text(name, "Slot") && item_set_is_active(
            &self.active_item_set,
            &self.item_set,
        ) {
            self.slot(attributes)
        } else {
            Ok(())
        }
    }

    fn start(&mut self, name: &str, attributes: &Vec<Option<XmlAttribute>>) -> (r: Result<
        (),
        PobError,
    >)
        requires
            old(self)@.group < usize::MAX,
        ensures
            went_as(with_start(old(self)@, name@, attribute_views(attributes@)), r, final(self)@),
            final(self)@.group <= old(self)@.group + 1,
    {
        if same_text(name, "PathOfBuilding") {
            self.rooted = true;
            Ok(())
        } else if same_text(name, "Build") {
            self.build(attributes)
        } else if same_text(name, "Skills") {
            self.active_skill_set = text_or_empty(attribute(attributes, "activeSkillSet")?);
            Ok(())
        } else if same_text(name, "SkillSet") {
            self.skill_set(attributes)
        } else if same_text(name, "Skill") && skill_set_is_active(
            &self.active_skill_set,
            &self.skill_set,
        ) {
            self.skill(attributes)
        } else if same_text(name, "Items") {
            self.active_item_set = text_or_empty(attribute(attributes, "activeItemSet")?);
            Ok(())
        } else if same_text(name, "ItemSet") {
            self.item_set = text_or_empty(attribute(attributes, "id")?);
            Ok(())
        } else if same_text(name, "Item") {
            if let Some(id) = attribute(attributes, "id")? {
                self.open_item = Some((id, String::new()));
            }
            Ok(())
        } else {
            self.leaf(name, attributes)
        }
    }

    fn end(&mut self, name: &str)
        ensures
            final(self)@ == with_end(old(self)@, name@),
    {
        if same_text(name, "Item") {
            if let Some((id, content)) = self.open_item.take() {
                self.items.insert(id, item_display_name(&content));
            }
        } else if same_text(name, "ItemSet") {
            self.item_set = String::new();
        } else if same_text(name, "Skill") {
            if self.in_main_group && self.main_skill.as_str().is_empty() {
                let index: usize = if self.main_gem > 0 {
                    self.main_gem - 1
                } else {
                    0
                };
                self.main_skill = if index < self.main_gems.len() {
                    self.main_gems[index].clone()
                } else if self.main_gems.len() > 0 {
                    self.main_gems[0].clone()
                } else {
                    String::new()
                };
            }
            self.in_main_group = false;
            self.main_gems = Vec::new();
            assert(views(self.main_gems@) =~= Seq::empty());
        } else if same_text(name, "SkillSet") {
            self.skill_set = String::new();
        }
    }

    fn text(&mut self, text: &Option<String>) -> (r: Result<(), PobError>)
        ensures
            went_as(with_text(old(self)@, option_text(*text)), r, final(self)@),
            final(self)@.group == old(self)@.group,
    {
        match self.open_item.take() {
            None => Ok(()),
            Some((id, content)) => match text {
                Some(text) => {
                    let mut content = content;
                    content.append(text);
                    self.open_item = Some((id, content));
                    Ok(())
                },
                None => Err(PobError::InvalidItemText),
            },
        }
    }

    fn event(&mut self, event: &XmlEvent) -> (r: Result<(), PobError>)
        requires
            old(self)@.group < usize::MAX,
        ensures
            went_as(with_event(old(self)@, event@), r, final(self)@),
            final(self)@.group <= old(self)@.group + 1,
    {
        match event {
            XmlEvent::Open { name, empty, attributes } => if *empty {
                self.leaf(name, attributes)
            } else {
                self.start(name, attributes)
            },
            XmlEvent::Close(name) => {
                self.end(name);
                Ok(())
            },
            XmlEvent::Text(text) => self.text(text),
            XmlEvent::Other => Ok(()),
        }
    }
}

// ---------------------------------------------------------------- the build of a document

/// The slots and names of a list of equipment.
pub open spec fn equipment_texts(equipment: Seq<PobEquipment>) -> Seq<(Seq<char>, Seq<char>)> {
    equipment.map_values(|e: PobEquipment| (e.slot@, e.name@))
}

/// The name of what each slot holds; a slot whose item is unknown or has no name is left out.
pub open spec fn worn(
    items: Map<Seq<char>, Seq<char>>,
    slots: Map<Seq<char>, Seq<char>>,
) -> Map<Seq<char>, Seq<char>> {
    Map::new(
        |slot: Seq<char>|
            slots.contains_key(slot) && items.contains_key(slots[slot]) && items[slots[slot]].len()
                > 0,
        |slot: Seq<char>| items[slots[slot]],
    )
}

/// Whether a build holds what was read: each gem once, in order, and the equipment in the order of
/// the slots.
pub open spec fn is_build(b: PobBuild, s: ReadSoFar) -> bool {
    &&& level_number(b.level) == s.level
    &&& b.class_name@ == s.class_name
    &&& b.ascendancy@ == s.ascendancy
    &&& b.main_skill@ == s.main_skill
    &&& stat_texts(b.stats@) == s.stats
    &&& lists_in_order(views(b.skill_gems@), s.gems)
    &&& ascending(keys_of(equipment_texts(b.equipment@)))
    &&& map_of(equipment_texts(b.equipment@)) == worn(s.items, s.slots)
}

/// What was read of a document leaves one build alone.
pub proof fn a_document_fixes_the_build(s: ReadSoFar, a: PobBuild, b: PobBuild)
    requires
        is_build(a, s),
        is_build(b, s),
    ensures
        a.level == b.level,
        a.class_name@ == b.class_name@,
        a.ascendancy@ == b.ascendancy@,
        a.main_skill@ == b.main_skill@,
        stat_texts(a.stats@) == stat_texts(b.stats@),
        views(a.skill_gems@) == views(b.skill_gems@),
        equipment_texts(a.equipment@) == equipment_texts(b.equipment@),
{
    order_fixes_the_list(views(a.skill_gems@), views(b.skill_gems@));
    order_fixes_the_entries(equipment_texts(a.equipment@), equipment_texts(b.equipment@));
}

/// What is worn in the listed slots, in their order.
spec fn worn_in(
    items: Map<Seq<char>, Seq<char>>,
    slots: Seq<(Seq<char>, Seq<char>)>,
) -> Seq<(Seq<char>, Seq<char>)>
    decreases slots.len(),
{
    if slots.len() == 0 {
        Seq::empty()
    } else {
        let before = worn_in(items, slots.drop_last());
        let (slot, item) = slots.last();
        if items.contains_key(item) && items[item].len() > 0 {
            before.push((slot, items[item]))
        } else {
            before
        }
    }
}

proof fn lemma_worn_in(items: Map<Seq<char>, Seq<char>>, slots: Seq<(Seq<char>, Seq<char>)>)
    requires
        ascending(keys_of(slots)),
    ensures
        ascending(keys_of(worn_in(items, slots))),
        map_of(worn_in(items, slots)) == worn(items, map_of(slots)),
    decreases slots.len(),
{
    if slots.len() == 0 {
        assert(map_of(worn_in(items, slots)) =~= worn(items, map_of(slots)));
    } else {
        let init = slots.drop_last();
        let (slot, item) = slots.last();
        let keys = keys_of(slots);
        let before = worn_in(items, init);
        assert(keys_of(init) =~= keys.drop_last());
        assert(ascending(keys_of(init))) by {
            assert forall|p: int, q: int| 0 <= p < q < keys_of(init).len() implies precedes(
                #[trigger] keys_of(init)[p],
                #[trigger] keys_of(init)[q],
            ) by {
                assert(precedes(keys[p], keys[q]));
            }
        }
        lemma_worn_in(items, init);
        map_holds_the_pairs(init);
        map_holds_the_pairs(before);
        if map_of(init).contains_key(slot) {
            let m = choose|m: int| 0 <= m < init.len() && keys_of(init)[m] == slot;
            assert(precedes(keys[m], keys[slots.len() - 1]));
            order_is_strict(slot);
        }
        let now = worn_in(items, slots);
        assert(ascending(keys_of(now))) by {
            if now != before {
                assert(keys_of(now) =~= keys_of(before).push(slot));
                assert forall|p: int, q: int| 0 <= p < q < keys_of(now).len() implies precedes(
                    #[trigger] keys_of(now)[p],
                    #[trigger] keys_of(now)[q],
                ) by {
                    if q < before.len() {
                        assert(precedes(keys_of(before)[p], keys_of(before)[q]));
                    } else {
                        let k = keys_of(before)[p];
                        assert(keys_of(before).contains(k));
                        assert(map_of(before).contains_key(k));
                        assert(map_of(init).contains_key(k));
                        let m = choose|m: int| 0 <= m < init.len() && keys_of(init)[m] == k;
                        assert(precedes(keys[m], keys[slots.len() - 1]));
                    }
                }
            }
        }
        assert(now.drop_last() =~= before || now == before);
        assert(map_of(now) =~= worn(items, map_of(slots)));
    }
}

fn list_worn(items: &TextMap, slots: &TextMap) -> (r: Vec<PobEquipment>)
    ensures
        ascending(keys_of(equipment_texts(r@))),
        map_of(equipment_texts(r@)) == worn(items@, slots@),
{
    let ghost all = slots.listing();
    let count: usize = slots.len();
    let mut out: Vec<PobEquipment> = Vec::new();
    let mut i: usize = 0;
    assert(equipment_texts(out@) =~= Seq::empty());
    while i < count
        invariant
            i <= count,
            count == all.len(),
            all == slots.listing(),
            equipment_texts(out@) == worn_in(items@, all.take(i as int)),
        decreases count - i,
    {
        let ghost before = out@;
        proof {
            assert(all.take(i + 1).drop_last() =~= all.take(i as int));
            assert(all.take(i + 1).last() == all[i as int]);
        }
        if let Some(name) = items.get(slots.value(i)) {
            if !name.is_empty() {
                let e = PobEquipment { slot: slots.key(i).to_string(), name: name.to_string() };
                out.push(e);
                assert(equipment_texts(out@) =~= equipment_texts(before).push((e.slot@, e.name@)));
            }
        }
        i = i + 1;
    }
    proof {
        assert(all.take(i as int) =~= all);
        lemma_worn_in(items@, all);
    }
    out
}

/// An error among the first events is the error of all of them.
pub proof fn the_first_error_decides(events: Seq<EventTexts>, n: int)
    requires
        0 <= n <= events.len(),
        with_events(events.take(n)) is Err,
    ensures
        with_events(events) == with_events(events.take(n)),
    decreases events.len() - n,
{
    if n < events.len() {
        assert(events.take(n + 1).drop_last() =~= events.take(n));
        the_first_error_decides(events, n + 1);
    } else {
        assert(events.take(n) =~= events);
    }
}

/// The build that the events of a document tell of; `complete` says whether the document was read
/// to its end.
pub fn build_from_events(events: &Vec<XmlEvent>, complete: bool) -> (r: Result<PobBuild, PobError>)
    ensures
        match r {
            Ok(b) => read_build(event_views(events@), complete) is Ok && is_build(
                b,
                read_build(event_views(events@), complete)->Ok_0,
            ),
            Err(e) => read_build(event_views(events@), complete) == Err::<ReadSoFar, PobError>(e),
        },
{
    let ghost all = event_views(events@);
    let mut reading = Reading::new();
    let mut i: usize = 0;
    while i < events.len()
        invariant
            i <= events@.len(),
            all == event_views(events@),
            with_events(all.take(i as int)) == Ok::<ReadSoFar, PobError>(reading@),
            reading@.group <= i,
        decreases events@.len() - i,
    {
        proof {
            assert(all.take(i + 1).drop_last() =~= all.take(i as int));
            assert(all.take(i + 1).last() == events@[i as int]@);
        }
        match reading.event(&events[i]) {
            Ok(()) => {},
            Err(e) => {
                proof {
                    the_first_error_decides(all, i + 1);
                }
                return Err(e);
            },
        }
        i = i + 1;
    }
    assert(all.take(i as int) =~= all);
    if !complete {
        return Err(PobError::InvalidXml);
    }
    if !reading.rooted {
        return Err(PobError::NotPathOfBuilding);
    }
    let equipment = list_worn(&reading.items, &reading.slots);
    let skill_gems = sort_distinct(reading.gems);
    Ok(
        PobBuild {
            level: reading.level,
            class_name: reading.class_name,
            ascendancy: reading.ascendancy,
            main_skill: reading.main_skill,
            stats: reading.stats,
            skill_gems,
            equipment,
        },
    )
}

/// What is read of the document with this text.
pub open spec fn read_xml(xml: Seq<char>) -> Result<ReadSoFar, PobError> {
    read_build(leading_events(xml_events(xml)), all_readable(xml_events(xml)))
}

/// The build in the document with this text.
pub fn parse_xml(xml: &str) -> (r: Result<PobBuild, PobError>)
    ensures
        match r {
            Ok(b) => read_xml(xml@) is Ok && is_build(b, read_xml(xml@)->Ok_0),
            Err(e) => read_xml(xml@) == Err::<ReadSoFar, PobError>(e),
        },
{
    let document = read_document(xml);
    build_from_events(&document.events, document.complete)
}

} // verus!
