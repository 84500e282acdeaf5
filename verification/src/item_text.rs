//! The texts that the game copies for an item.

use vstd::prelude::*;
use vstd::string::*;
use crate::bonuses::{all_fit, fits, no_bonuses, BonusTotals, ItemBonuses};
use crate::character::CapturedItem;
use crate::number::{parse_i32, signed_in};
use crate::patterns::{all_matches, find_all, group, group_at, group_texts, match_texts};
use crate::text::{
    begins_with, behind, first_of, first_word, first_word_of, lines, lines_of, lowered,
    remove_char, same_text, starts_with, strip_prefix, strip_prefixes,
    to_lowercase, trim, trim_end_of, trimmed, trimmed_end_of, trimming_twice_is_trimming_once,
    views, without_char, without_prefixes,
};

verus! {

// ---------------------------------------------------------------- numbers and lines

/// The number that a text writes, with or without commas, and with or without percent signs behind.
pub open spec fn number_in(value: Seq<char>) -> Option<int> {
    signed_in(
        without_char(trimmed_end_of(trimmed(value), "%"@), ','),
        i32::MIN as int,
        i32::MAX as int,
    )
}

/// The number that a text writes, with or without commas, and with or without percent signs behind.
pub fn parse_number(value: &str) -> (r: Option<i32>)
    ensures
        match r {
            Some(n) => number_in(value@) == Some(n as int),
            None => number_in(value@) is None,
        },
{
    parse_i32(&remove_char(trim_end_of(trim(value), "%"), ','))
}

/// The lines of a text, each without the white space around it.
pub open spec fn trimmed_lines(text: Seq<char>) -> Seq<Seq<char>> {
    lines_of(text).map_values(|line: Seq<char>| trimmed(line))
}

pub(crate) fn trim_all(list: &Vec<String>) -> (r: Vec<String>)
    ensures
        views(r@) == views(list@).map_values(|line: Seq<char>| trimmed(line)),
{
    let ghost all = views(list@).map_values(|line: Seq<char>| trimmed(line));
    let mut out: Vec<String> = Vec::new();
    let mut i: usize = 0;
    while i < list.len()
        invariant
            i <= list@.len(),
            all == views(list@).map_values(|line: Seq<char>| trimmed(line)),
            views(out@) == all.take(i as int),
        decreases list@.len() - i,
    {
        let text = trim(&list[i]).to_string();
        let ghost before = views(out@);
        out.push(text);
        proof {
            assert(views(out@) =~= before.push(text@));
            assert(views(list@)[i as int] == list@[i as int]@);
            assert(all.take(i + 1) =~= all.take(i as int).push(text@));
        }
        i = i + 1;
    }
    assert(all.take(i as int) =~= all);
    out
}

/// What stands behind the prefix in the first line that has it, without the white space around it.
pub open spec fn prefixed(lines: Seq<Seq<char>>, prefix: Seq<char>) -> Option<Seq<char>>
    decreases lines.len(),
{
    if lines.len() == 0 {
        None
    } else {
        match behind(lines[0], prefix) {
            Some(value) => Some(trimmed(value)),
            None => prefixed(lines.skip(1), prefix),
        }
    }
}

/// What stands behind the prefix in the first line that has it, without the white space around it.
pub fn prefixed_value(lines: &Vec<String>, prefix: &str) -> (r: Option<String>)
    ensures
        match r {
            Some(value) => prefixed(views(lines@), prefix@) == Some(value@),
            None => prefixed(views(lines@), prefix@) is None,
        },
{
    let ghost all = views(lines@);
    let mut i: usize = 0;
    assert(all.skip(0) =~= all);
    while i < lines.len()
        invariant
            i <= lines@.len(),
            all == views(lines@),
            prefixed(all.skip(i as int), prefix@) == prefixed(all, prefix@),
        decreases lines@.len() - i,
    {
        proof {
            assert(all.skip(i as int)[0] == lines@[i as int]@);
            assert(all.skip(i as int).skip(1) =~= all.skip(i + 1));
        }
        if let Some(value) = strip_prefix(&lines[i], prefix) {
            return Some(trim(value).to_string());
        }
        i = i + 1;
    }
    None
}

/// The number in the first word behind the prefix, in the first line where there is one; zero where
/// there is none.
pub open spec fn property_in(lines: Seq<Seq<char>>, prefix: Seq<char>) -> int
    decreases lines.len(),
{
    if lines.len() == 0 {
        0
    } else {
        match property_of_line(lines[0], prefix) {
            Some(n) => n,
            None => property_in(lines.skip(1), prefix),
        }
    }
}

/// The number in the first word behind the prefix.
pub open spec fn property_of_line(line: Seq<char>, prefix: Seq<char>) -> Option<int> {
    match behind(trimmed(line), prefix) {
        Some(value) => match first_word_of(value) {
            Some(word) => number_in(word),
            None => None,
        },
        None => None,
    }
}

/// The number of a property that a text lists under a name, zero where there is none.
pub open spec fn property(text: Seq<char>, name: Seq<char>) -> int {
    property_in(lines_of(text), name + ":"@)
}

fn read_property(line: &str, prefix: &str) -> (r: Option<i32>)
    ensures
        match r {
            Some(n) => property_of_line(line@, prefix@) == Some(n as int),
            None => property_of_line(line@, prefix@) is None,
        },
{
    match strip_prefix(trim(line), prefix) {
        Some(value) => match first_word(value) {
            Some(word) => parse_number(word),
            None => None,
        },
        None => None,
    }
}

/// The number of a property that a text lists under a name, zero where there is none.
pub fn property_value(text: &str, name: &str) -> (n: i32)
    ensures
        n == property(text@, name@),
{
    let mut prefix = name.to_string();
    prefix.append(":");
    let list = lines(text);
    let ghost all = views(list@);
    let mut i: usize = 0;
    assert(all.skip(0) =~= all);
    while i < list.len()
        invariant
            i <= list@.len(),
            all == views(list@),
            all == lines_of(text@),
            prefix@ == name@ + ":"@,
            property_in(all.skip(i as int), prefix@) == property_in(all, prefix@),
        decreases list@.len() - i,
    {
        proof {
            assert(all.skip(i as int)[0] == list@[i as int]@);
            assert(all.skip(i as int).skip(1) =~= all.skip(i + 1));
        }
        if let Some(n) = read_property(&list[i], &prefix) {
            return n;
        }
        i = i + 1;
    }
    0
}

/// Which line, from line `i` on, is the first that begins with the prefix.
pub open spec fn first_line_from(lines: Seq<Seq<char>>, prefix: Seq<char>, i: int) -> Option<int>
    decreases lines.len() - i,
{
    if i < 0 || i >= lines.len() {
        None
    } else if begins_with(lines[i], prefix) {
        Some(i)
    } else {
        first_line_from(lines, prefix, i + 1)
    }
}

pub(crate) fn find_line(lines: &Vec<String>, prefix: &str) -> (r: Option<usize>)
    ensures
        match r {
            Some(i) => i < lines@.len() && first_line_from(views(lines@), prefix@, 0) == Some(
                i as int,
            ),
            None => first_line_from(views(lines@), prefix@, 0) is None,
        },
{
    let mut i: usize = 0;
    while i < lines.len()
        invariant
            i <= lines@.len(),
            first_line_from(views(lines@), prefix@, i as int) == first_line_from(
                views(lines@),
                prefix@,
                0,
            ),
        decreases lines@.len() - i,
    {
        if starts_with(&lines[i], prefix) {
            return Some(i);
        }
        i = i + 1;
    }
    None
}

// ---------------------------------------------------------------- statistics of an item

/// The lines that add life.
pub const LIFE: &'static str = r"(?mi)^\+([0-9,]+) to maximum Life(?:\s|$)";

/// The lines that add mana.
pub const MANA: &'static str = r"(?mi)^\+([0-9,]+) to maximum Mana(?:\s|$)";

/// The lines that add energy shield.
pub const ENERGY_SHIELD: &'static str = r"(?mi)^\+([0-9,]+) to maximum Energy Shield(?:\s|$)";

/// The lines that add resistance to fire.
pub const FIRE_RESISTANCE: &'static str = r"(?mi)^\+?(-?[0-9,]+)% to Fire Resistance";

/// The lines that add resistance to cold.
pub const COLD_RESISTANCE: &'static str = r"(?mi)^\+?(-?[0-9,]+)% to Cold Resistance";

/// The lines that add resistance to lightning.
pub const LIGHTNING_RESISTANCE: &'static str = r"(?mi)^\+?(-?[0-9,]+)% to Lightning Resistance";

/// The lines that add resistance to chaos.
pub const CHAOS_RESISTANCE: &'static str = r"(?mi)^\+?(-?[0-9,]+)% to Chaos Resistance";

/// The lines that add strength.
pub const STRENGTH: &'static str = r"(?mi)^\+([0-9,]+) to Strength(?:\s|$)";

/// The lines that add dexterity.
pub const DEXTERITY: &'static str = r"(?mi)^\+([0-9,]+) to Dexterity(?:\s|$)";

/// The lines that add intelligence.
pub const INTELLIGENCE: &'static str = r"(?mi)^\+([0-9,]+) to Intelligence(?:\s|$)";

/// The lines that add resistance to every element.
pub const ALL_RESISTANCES: &'static str = r"(?mi)^\+?(-?[0-9,]+)% to all Elemental Resistances";

/// The matches of the statistics that an item's text lists.
#[derive(Debug, Clone, PartialEq, Eq)]
pub struct StatMatches {
    pub life: Vec<Vec<Option<String>>>,
    pub mana: Vec<Vec<Option<String>>>,
    pub energy_shield: Vec<Vec<Option<String>>>,
    pub fire_resistance: Vec<Vec<Option<String>>>,
    pub cold_resistance: Vec<Vec<Option<String>>>,
    pub lightning_resistance: Vec<Vec<Option<String>>>,
    pub chaos_resistance: Vec<Vec<Option<String>>>,
    pub strength: Vec<Vec<Option<String>>>,
    pub dexterity: Vec<Vec<Option<String>>>,
    pub intelligence: Vec<Vec<Option<String>>>,
    pub all_resistances: Vec<Vec<Option<String>>>,
}

/// The matches of the statistics that an item's text lists, as texts.
pub struct StatMatchTexts {
    pub life: Seq<Seq<Option<Seq<char>>>>,
    pub mana: Seq<Seq<Option<Seq<char>>>>,
    pub energy_shield: Seq<Seq<Option<Seq<char>>>>,
    pub fire_resistance: Seq<Seq<Option<Seq<char>>>>,
    pub cold_resistance: Seq<Seq<Option<Seq<char>>>>,
    pub lightning_resistance: Seq<Seq<Option<Seq<char>>>>,
    pub chaos_resistance: Seq<Seq<Option<Seq<char>>>>,
    pub strength: Seq<Seq<Option<Seq<char>>>>,
    pub dexterity: Seq<Seq<Option<Seq<char>>>>,
    pub intelligence: Seq<Seq<Option<Seq<char>>>>,
    pub all_resistances: Seq<Seq<Option<Seq<char>>>>,
}

impl View for StatMatches {
    type V = StatMatchTexts;

    open spec fn view(&self) -> StatMatchTexts {
        StatMatchTexts {
            life: match_texts(self.life@),
            mana: match_texts(self.mana@),
            energy_shield: match_texts(self.energy_shield@),
            fire_resistance: match_texts(self.fire_resistance@),
            cold_resistance: match_texts(self.cold_resistance@),
            lightning_resistance: match_texts(self.lightning_resistance@),
            chaos_resistance: match_texts(self.chaos_resistance@),
            strength: match_texts(self.strength@),
            dexterity: match_texts(self.dexterity@),
            intelligence: match_texts(self.intelligence@),
            all_resistances: match_texts(self.all_resistances@),
        }
    }
}

/// The matches of each statistic; nothing where a pattern is refused.
pub open spec fn stat_matches_in(text: Seq<char>) -> Option<StatMatchTexts> {
    let accepted = {
        &&& all_matches(LIFE@, text) is Some
        &&& all_matches(MANA@, text) is Some
        &&& all_matches(ENERGY_SHIELD@, text) is Some
        &&& all_matches(FIRE_RESISTANCE@, text) is Some
        &&& all_matches(COLD_RESISTANCE@, text) is Some
        &&& all_matches(LIGHTNING_RESISTANCE@, text) is Some
        &&& all_matches(CHAOS_RESISTANCE@, text) is Some
        &&& all_matches(STRENGTH@, text) is Some
        &&& all_matches(DEXTERITY@, text) is Some
        &&& all_matches(INTELLIGENCE@, text) is Some
        &&& all_matches(ALL_RESISTANCES@, text) is Some
    };
    if accepted {
        Some(
            StatMatchTexts {
                life: all_matches(LIFE@, text)->0,
                mana: all_matches(MANA@, text)->0,
                energy_shield: all_matches(ENERGY_SHIELD@, text)->0,
                fire_resistance: all_matches(FIRE_RESISTANCE@, text)->0,
                cold_resistance: all_matches(COLD_RESISTANCE@, text)->0,
                lightning_resistance: all_matches(LIGHTNING_RESISTANCE@, text)->0,
                chaos_resistance: all_matches(CHAOS_RESISTANCE@, text)->0,
                strength: all_matches(STRENGTH@, text)->0,
                dexterity: all_matches(DEXTERITY@, text)->0,
                intelligence: all_matches(INTELLIGENCE@, text)->0,
                all_resistances: all_matches(ALL_RESISTANCES@, text)->0,
            },
        )
    } else {
        None
    }
}

fn find_stats(text: &str) -> (r: Option<StatMatches>)
    ensures
        match r {
            Some(m) => stat_matches_in(text@) == Some(m@),
            None => stat_matches_in(text@) is None,
        },
{
    Some(
        StatMatches {
            life: find_all(LIFE, text).ok()?,
            mana: find_all(MANA, text).ok()?,
            energy_shield: find_all(ENERGY_SHIELD, text).ok()?,
            fire_resistance: find_all(FIRE_RESISTANCE, text).ok()?,
            cold_resistance: find_all(COLD_RESISTANCE, text).ok()?,
            lightning_resistance: find_all(LIGHTNING_RESISTANCE, text).ok()?,
            chaos_resistance: find_all(CHAOS_RESISTANCE, text).ok()?,
            strength: find_all(STRENGTH, text).ok()?,
            dexterity: find_all(DEXTERITY, text).ok()?,
            intelligence: find_all(INTELLIGENCE, text).ok()?,
            all_resistances: find_all(ALL_RESISTANCES, text).ok()?,
        },
    )
}

/// The number that a match adds.
pub open spec fn match_value(groups: Seq<Option<Seq<char>>>) -> int {
    match group_at(groups, 1) {
        Some(value) => match number_in(value) {
            Some(n) => n,
            None => 0,
        },
        None => 0,
    }
}

/// What the matches add up to.
pub open spec fn total_of(matches: Seq<Seq<Option<Seq<char>>>>) -> int
    decreases matches.len(),
{
    if matches.len() == 0 {
        0
    } else {
        total_of(matches.drop_last()) + match_value(matches.last())
    }
}

/// Whether the sum fits all the way when the matches are added up from the first one.
pub open spec fn total_fits(matches: Seq<Seq<Option<Seq<char>>>>) -> bool {
    forall|n: int| 0 <= n <= matches.len() ==> fits(total_of(#[trigger] matches.take(n)))
}

fn read_match(groups: &Vec<Option<String>>) -> (n: i32)
    ensures
        n == match_value(group_texts(groups@)),
{
    match group(groups, 1) {
        Some(value) => match parse_number(value) {
            Some(n) => n,
            None => 0,
        },
        None => 0,
    }
}

/// What the matches add up to, where it fits on the way.
pub fn total(matches: &Vec<Vec<Option<String>>>) -> (r: Option<i32>)
    ensures
        match r {
            Some(n) => total_fits(match_texts(matches@)) && n == total_of(match_texts(matches@)),
            None => !total_fits(match_texts(matches@)),
        },
{
    let ghost all = match_texts(matches@);
    let mut sum: i32 = 0;
    let mut i: usize = 0;
    while i < matches.len()
        invariant
            i <= matches@.len(),
            all == match_texts(matches@),
            sum == total_of(all.take(i as int)),
            forall|n: int| 0 <= n <= i ==> fits(total_of(#[trigger] all.take(n))),
        decreases matches@.len() - i,
    {
        proof {
            assert(all.take(i + 1).drop_last() =~= all.take(i as int));
            assert(all.take(i + 1).last() == group_texts(matches@[i as int]@));
        }
        match sum.checked_add(read_match(&matches[i])) {
            Some(now) => {
                sum = now;
            },
            None => {
                return None;
            },
        }
        i = i + 1;
    }
    assert(all.take(i as int) =~= all);
    Some(sum)
}

/// What an item adds: its statistics and properties, and the resistance to all elements for each
/// element.
pub open spec fn bonuses_in(text: Seq<char>, m: StatMatchTexts) -> BonusTotals {
    let all_resistances = total_of(m.all_resistances);
    BonusTotals {
        life: total_of(m.life),
        mana: total_of(m.mana),
        energy_shield: total_of(m.energy_shield) + property(text, "Energy Shield"@),
        armour: property(text, "Armour"@),
        evasion: property(text, "Evasion Rating"@),
        fire_resistance: total_of(m.fire_resistance) + all_resistances,
        cold_resistance: total_of(m.cold_resistance) + all_resistances,
        lightning_resistance: total_of(m.lightning_resistance) + all_resistances,
        chaos_resistance: total_of(m.chaos_resistance),
        strength: total_of(m.strength),
        dexterity: total_of(m.dexterity),
        intelligence: total_of(m.intelligence),
    }
}

/// Whether every sum fits on the way.
pub open spec fn bonuses_fit(text: Seq<char>, m: StatMatchTexts) -> bool {
    &&& total_fits(m.life)
    &&& total_fits(m.mana)
    &&& total_fits(m.energy_shield)
    &&& total_fits(m.fire_resistance)
    &&& total_fits(m.cold_resistance)
    &&& total_fits(m.lightning_resistance)
    &&& total_fits(m.chaos_resistance)
    &&& total_fits(m.strength)
    &&& total_fits(m.dexterity)
    &&& total_fits(m.intelligence)
    &&& total_fits(m.all_resistances)
    &&& all_fit(bonuses_in(text, m))
}

/// What an item adds, where every sum fits on the way.
pub fn item_bonuses(text: &str, m: &StatMatches) -> (r: Option<ItemBonuses>)
    ensures
        match r {
            Some(b) => bonuses_fit(text@, m@) && b@ == bonuses_in(text@, m@),
            None => !bonuses_fit(text@, m@),
        },
{
    let all_resistances: i32 = total(&m.all_resistances)?;
    Some(
        ItemBonuses {
            life: total(&m.life)?,
            mana: total(&m.mana)?,
            energy_shield: total(&m.energy_shield)?.checked_add(
                property_value(text, "Energy Shield"),
            )?,
            armour: property_value(text, "Armour"),
            evasion: property_value(text, "Evasion Rating"),
            fire_resistance: total(&m.fire_resistance)?.checked_add(all_resistances)?,
            cold_resistance: total(&m.cold_resistance)?.checked_add(all_resistances)?,
            lightning_resistance: total(&m.lightning_resistance)?.checked_add(all_resistances)?,
            chaos_resistance: total(&m.chaos_resistance)?,
            strength: total(&m.strength)?,
            dexterity: total(&m.dexterity)?,
            intelligence: total(&m.intelligence)?,
        },
    )
}

// ---------------------------------------------------------------- items

/// Why a text is no item.
#[derive(Debug, Clone, Copy, PartialEq, Eq, Structural)]
pub enum ItemTextError {
    /// Nothing but white space was given.
    NoText,
    /// No line tells the rarity.
    NoRarity,
    /// A pattern was refused.
    Pattern,
}

/// The texts of an item and what it adds.
pub struct ItemContent {
    pub slot: Seq<char>,
    pub item_class: Seq<char>,
    pub rarity: Seq<char>,
    pub name: Seq<char>,
    pub base_type: Seq<char>,
    pub bonuses: BonusTotals,
    pub raw_text: Seq<char>,
}

impl View for CapturedItem {
    type V = ItemContent;

    open spec fn view(&self) -> ItemContent {
        ItemContent {
            slot: self.slot@,
            item_class: self.item_class@,
            rarity: self.rarity@,
            name: self.name@,
            base_type: self.base_type@,
            bonuses: self.bonuses@,
            raw_text: self.raw_text@,
        }
    }
}

/// Whether a line can hold a name: it is neither empty nor a row of dashes between two parts.
pub open spec fn can_name(line: Seq<char>) -> bool {
    line.len() > 0 && line != "--------"@
}

pub(crate) fn is_name(line: &str) -> (r: bool)
    ensures
        r == can_name(line@),
{
    !line.is_empty() && !same_text(line, "--------")
}

/// The lines that can hold a name.
pub open spec fn naming_lines(lines: Seq<Seq<char>>) -> Seq<Seq<char>>
    decreases lines.len(),
{
    if lines.len() == 0 {
        Seq::empty()
    } else if can_name(lines.last()) {
        naming_lines(lines.drop_last()).push(lines.last())
    } else {
        naming_lines(lines.drop_last())
    }
}

/// The first two lines from line `from` on that can hold a name.
fn first_names(lines: &Vec<String>, from: usize) -> (r: Vec<String>)
    requires
        from <= lines@.len(),
    ensures
        views(r@) == first_of(naming_lines(views(lines@).skip(from as int)), 2),
{
    let ghost all = views(lines@).skip(from as int);
    let mut out: Vec<String> = Vec::new();
    let mut i: usize = from;
    assert(views(out@) =~= Seq::empty());
    while i < lines.len()
        invariant
            from <= i <= lines@.len(),
            all == views(lines@).skip(from as int),
            views(out@) == first_of(naming_lines(all.take(i - from)), 2),
        decreases lines@.len() - i,
    {
        let ghost before = views(out@);
        let ghost known = naming_lines(all.take(i - from));
        proof {
            assert(all.take(i - from + 1).drop_last() =~= all.take(i - from));
            assert(all.take(i - from + 1).last() == lines@[i as int]@);
        }
        if is_name(&lines[i]) {
            if out.len() < 2 {
                let name = lines[i].clone();
                out.push(name);
                assert(views(out@) =~= before.push(name@));
            } else {
                assert(first_of(known.push(lines@[i as int]@), 2) =~= first_of(known, 2));
            }
        }
        i = i + 1;
    }
    assert(all.take(i - from) =~= all);
    out
}

/// Whether an item of this rarity has a name of its own in front of its base.
pub open spec fn has_own_name(rarity: Seq<char>) -> bool {
    lowered(rarity) == "rare"@ || lowered(rarity) == "unique"@ || lowered(rarity) == "relic"@
}

fn is_named_rarity(rarity: &str) -> (r: bool)
    ensures
        r == has_own_name(rarity@),
{
    let lower = to_lowercase(rarity);
    same_text(&lower, "rare") || same_text(&lower, "unique") || same_text(&lower, "relic")
}

/// The first of the lines that can hold a name.
pub open spec fn first_name(names: Seq<Seq<char>>) -> Seq<char> {
    if names.len() > 0 {
        names[0]
    } else {
        "Unknown item"@
    }
}

/// The base of an item: its second name where the item has one of its own, or else its name.
pub open spec fn base_name(rarity: Seq<char>, names: Seq<Seq<char>>) -> Seq<char> {
    if !has_own_name(rarity) {
        first_name(names)
    } else if names.len() > 1 {
        names[1]
    } else {
        Seq::empty()
    }
}

/// The item that a text tells of, without what it adds.
pub open spec fn frame_in(slot: Seq<char>, input: Seq<char>) -> Result<ItemContent, ItemTextError> {
    let text = trimmed(input);
    let lines = trimmed_lines(text);
    if text.len() == 0 {
        Err(ItemTextError::NoText)
    } else {
        match first_line_from(lines, "Rarity:"@, 0) {
            None => Err(ItemTextError::NoRarity),
            Some(i) => {
                let rarity = trimmed(without_prefixes(lines[i], "Rarity:"@));
                let names = naming_lines(lines.skip(i + 1));
                Ok(
                    ItemContent {
                        slot: trimmed(slot),
                        item_class: match prefixed(lines, "Item Class:"@) {
                            Some(class) => class,
                            None => Seq::empty(),
                        },
                        rarity,
                        name: first_name(names),
                        base_type: base_name(rarity, names),
                        bonuses: no_bonuses(),
                        raw_text: text,
                    },
                )
            },
        }
    }
}

/// The item that a text tells of.
pub open spec fn item_in(slot: Seq<char>, input: Seq<char>) -> Result<ItemContent, ItemTextError> {
    match frame_in(slot, input) {
        Err(e) => Err(e),
        Ok(frame) => match stat_matches_in(frame.raw_text) {
            None => Err(ItemTextError::Pattern),
            Some(m) => Ok(ItemContent { bonuses: bonuses_in(frame.raw_text, m), ..frame }),
        },
    }
}

/// Whether every sum fits on the way where the text is that of an item.
pub open spec fn item_fits(input: Seq<char>) -> bool {
    frame_in(Seq::empty(), input) is Ok ==> match stat_matches_in(trimmed(input)) {
        None => true,
        Some(m) => bonuses_fit(trimmed(input), m),
    }
}

/// The item that a text tells of, without what it adds.
pub fn item_frame(slot: &str, input: &str) -> (r: Result<CapturedItem, ItemTextError>)
    ensures
        match r {
            Ok(frame) => frame_in(slot@, input@) == Ok::<ItemContent, ItemTextError>(frame@),
            Err(e) => frame_in(slot@, input@) == Err::<ItemContent, ItemTextError>(e),
        },
{
    let text = trim(input);
    if text.is_empty() {
        return Err(ItemTextError::NoText);
    }
    let lines = trim_all(&lines(text));
    assert(views(lines@) =~= trimmed_lines(text@));
    let item_class = match prefixed_value(&lines, "Item Class:") {
        Some(class) => class,
        None => String::new(),
    };
    match find_line(&lines, "Rarity:") {
        None => Err(ItemTextError::NoRarity),
        Some(i) => {
            assert(i < lines.len());
            assert(views(lines@)[i as int] == lines@[i as int]@);
            let rarity = trim(strip_prefixes(&lines[i], "Rarity:")).to_string();
            let names = first_names(&lines, i + 1);
            let ghost all_names = naming_lines(views(lines@).skip(i + 1));
            assert(names@.len() == views(names@).len());
            let name = if names.len() > 0 {
                assert(views(names@)[0] == names@[0]@);
                names[0].clone()
            } else {
                "Unknown item".to_string()
            };
            let base_type = if !is_named_rarity(&rarity) {
                name.clone()
            } else if names.len() > 1 {
                assert(views(names@)[1] == names@[1]@);
                names[1].clone()
            } else {
                String::new()
            };
            Ok(
                CapturedItem {
                    slot: trim(slot).to_string(),
                    item_class,
                    rarity,
                    name,
                    base_type,
                    bonuses: ItemBonuses::default(),
                    raw_text: text.to_string(),
                },
            )
        },
    }
}

/// The item that a text tells of.
pub fn parse_item_text(slot: &str, input: &str) -> (r: Result<CapturedItem, ItemTextError>)
    requires
        item_fits(input@),
    ensures
        match r {
            Ok(item) => item_in(slot@, input@) == Ok::<ItemContent, ItemTextError>(item@),
            Err(e) => item_in(slot@, input@) == Err::<ItemContent, ItemTextError>(e),
        },
{
    let mut item = item_frame(slot, input)?;
    match find_stats(&item.raw_text) {
        None => Err(ItemTextError::Pattern),
        Some(m) => {
            item.bonuses = item_bonuses(&item.raw_text, &m).unwrap();
            Ok(item)
        },
    }
}

fn totals_fit(input: &str) -> (r: bool)
    ensures
        r == item_fits(input@),
{
    match item_frame("", input) {
        Err(_) => {
            assert(frame_in(""@, input@) is Err ==> frame_in(Seq::empty(), input@) is Err);
            true
        },
        Ok(item) => match find_stats(&item.raw_text) {
            None => true,
            Some(m) => item_bonuses(&item.raw_text, &m).is_some(),
        },
    }
}

/// The item that a text tells of; nothing where what it adds is too large on the way.
pub fn try_parse_item_text(slot: &str, input: &str) -> (r: Result<
    Option<CapturedItem>,
    ItemTextError,
>)
    ensures
        match r {
            Ok(Some(item)) => item_fits(input@) && item_in(slot@, input@) == Ok::<
                ItemContent,
                ItemTextError,
            >(item@),
            Ok(None) => !item_fits(input@),
            Err(e) => item_fits(input@) && item_in(slot@, input@) == Err::<
                ItemContent,
                ItemTextError,
            >(e),
        },
{
    if !totals_fit(input) {
        return Ok(None);
    }
    match parse_item_text(slot, input) {
        Ok(item) => Ok(Some(item)),
        Err(e) => Err(e),
    }
}

/// White space around the text of an item does not matter.
pub proof fn space_around_an_item_does_not_matter(slot: Seq<char>, input: Seq<char>)
    ensures
        item_in(slot, trimmed(input)) == item_in(slot, input),
        item_in(trimmed(slot), input) == item_in(slot, input),
{
    trimming_twice_is_trimming_once(input);
    trimming_twice_is_trimming_once(slot);
}

impl ItemTextError {
    /// What a user is told.
    pub open spec fn message_text(self) -> Seq<char> {
        match self {
            ItemTextError::NoText => "copy an item in Path of Exile and paste its text here"@,
            ItemTextError::NoRarity => "this does not look like Path of Exile item text (missing Rarity)"@,
            ItemTextError::Pattern => "an item pattern is invalid"@,
        }
    }

    /// What a user is told.
    pub fn message(&self) -> (r: &'static str)
        ensures
            r@ == self.message_text(),
    {
        match self {
            ItemTextError::NoText => "copy an item in Path of Exile and paste its text here",
            ItemTextError::NoRarity => "this does not look like Path of Exile item text (missing Rarity)",
            ItemTextError::Pattern => "an item pattern is invalid",
        }
    }
}

} // verus!
