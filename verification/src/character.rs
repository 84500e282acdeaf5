//! Characters as a player captures them: what the character sheet shows, worn items and gems.

use vstd::prelude::*;
use vstd::string::*;
use crate::bonuses::{all_fit, sum_of, sums_fit, BonusTotals, ItemBonuses};
use crate::number::{decimal, decimal_with_sign, write_i32_with_sign, write_u64};
use crate::order::TextMap;
use crate::text::{join, joined, trim, trimmed, views};

verus! {

/// An item that a player copied.
#[derive(Debug, Clone, PartialEq, Eq)]
pub struct CapturedItem {
    pub slot: String,
    pub item_class: String,
    pub rarity: String,
    pub name: String,
    pub base_type: String,
    pub bonuses: ItemBonuses,
    pub raw_text: String,
}

/// A gem that a player copied.
#[derive(Debug, Clone, PartialEq, Eq)]
pub struct CapturedGem {
    pub group: String,
    pub name: String,
    pub level: u32,
    pub quality: i32,
    pub tags: Vec<String>,
    pub raw_text: String,
}

/// When each part of a character was captured, in seconds, and how sure the reading of the sheet is.
#[derive(Debug, Clone, Copy, PartialEq, Eq)]
pub struct CaptureFreshness {
    pub identity_at: Option<i64>,
    pub equipment_at: Option<i64>,
    pub gems_at: Option<i64>,
    pub sheet_at: Option<i64>,
    pub passives_at: Option<i64>,
    pub sheet_confidence: Option<u8>,
}

/// A character as far as it was captured.
#[derive(Debug, Clone, PartialEq, Eq)]
pub struct OfflineCharacter {
    pub profile_id: String,
    pub name: String,
    pub class_name: String,
    pub ascendancy: String,
    pub league: String,
    pub level: u32,
    pub passive_tree_url: String,
    pub sheet_stats: TextMap,
    pub items: Vec<CapturedItem>,
    pub gems: Vec<CapturedGem>,
    pub freshness: CaptureFreshness,
    pub ollama_review: String,
}

impl Default for CapturedGem {
    fn default() -> (r: Self)
        ensures
            r.group@.len() == 0,
            r.name@.len() == 0,
            r.level == 0,
            r.quality == 0,
            r.tags@.len() == 0,
            r.raw_text@.len() == 0,
    {
        CapturedGem {
            group: String::new(),
            name: String::new(),
            level: 0,
            quality: 0,
            tags: Vec::new(),
            raw_text: String::new(),
        }
    }
}

impl CaptureFreshness {
    /// Whether nothing was captured yet.
    pub open spec fn is_unset(self) -> bool {
        &&& self.identity_at is None
        &&& self.equipment_at is None
        &&& self.gems_at is None
        &&& self.sheet_at is None
        &&& self.passives_at is None
        &&& self.sheet_confidence is None
    }
}

impl Default for CaptureFreshness {
    fn default() -> (r: Self)
        ensures
            r.is_unset(),
    {
        CaptureFreshness {
            identity_at: None,
            equipment_at: None,
            gems_at: None,
            sheet_at: None,
            passives_at: None,
            sheet_confidence: None,
        }
    }
}

impl Default for OfflineCharacter {
    fn default() -> (r: Self)
        ensures
            r.profile_id@.len() == 0,
            r.name@.len() == 0,
            r.class_name@.len() == 0,
            r.ascendancy@.len() == 0,
            r.league@.len() == 0,
            r.level == 0,
            r.passive_tree_url@.len() == 0,
            r.sheet_stats.listing().len() == 0,
            r.items@.len() == 0,
            r.gems@.len() == 0,
            r.freshness.is_unset(),
            r.ollama_review@.len() == 0,
    {
        OfflineCharacter {
            profile_id: String::new(),
            name: String::new(),
            class_name: String::new(),
            ascendancy: String::new(),
            league: String::new(),
            level: 0,
            passive_tree_url: String::new(),
            sheet_stats: TextMap::new(),
            items: Vec::new(),
            gems: Vec::new(),
            freshness: CaptureFreshness::default(),
            ollama_review: String::new(),
        }
    }
}

// ---------------------------------------------------------------- equipment

/// What each item adds.
pub open spec fn bonus_list(items: Seq<CapturedItem>) -> Seq<BonusTotals> {
    items.map_values(|item: CapturedItem| item.bonuses@)
}

/// What the items add together.
pub open spec fn equipment_total(items: Seq<CapturedItem>) -> BonusTotals {
    sum_of(bonus_list(items))
}

impl OfflineCharacter {
    /// What the worn items add together, where it fits on the way.
    pub fn checked_equipment_bonuses(&self) -> (r: Option<ItemBonuses>)
        ensures
            match r {
                Some(total) => sums_fit(bonus_list(self.items@)) && total@ == equipment_total(
                    self.items@,
                ),
                None => !sums_fit(bonus_list(self.items@)),
            },
    {
        let ghost all = bonus_list(self.items@);
        let mut total = ItemBonuses::default();
        let mut i: usize = 0;
        while i < self.items.len()
            invariant
                i <= self.items@.len(),
                all == bonus_list(self.items@),
                total@ == sum_of(all.take(i as int)),
                forall|n: int| 0 <= n <= i ==> all_fit(sum_of(#[trigger] all.take(n))),
            decreases self.items@.len() - i,
        {
            proof {
                assert(all.take(i + 1).drop_last() =~= all.take(i as int));
                assert(all.take(i + 1).last() == self.items@[i as int].bonuses@);
            }
            match total.checked_sum(&self.items[i].bonuses) {
                Some(sum) => {
                    total = sum;
                },
                None => {
                    return None;
                },
            }
            i = i + 1;
        }
        assert(all.take(i as int) =~= all);
        Some(total)
    }

    /// What the worn items add together.
    pub fn equipment_bonuses(&self) -> (r: ItemBonuses)
        requires
            sums_fit(bonus_list(self.items@)),
        ensures
            r@ == equipment_total(self.items@),
    {
        let ghost all = bonus_list(self.items@);
        let mut total = ItemBonuses::default();
        let mut i: usize = 0;
        while i < self.items.len()
            invariant
                i <= self.items@.len(),
                all == bonus_list(self.items@),
                sums_fit(all),
                total@ == sum_of(all.take(i as int)),
            decreases self.items@.len() - i,
        {
            proof {
                assert(all.take(i + 1).drop_last() =~= all.take(i as int));
                assert(all.take(i + 1).last() == self.items@[i as int].bonuses@);
                assert(all_fit(sum_of(all.take(i + 1))));
            }
            total.add(&self.items[i].bonuses);
            i = i + 1;
        }
        assert(all.take(i as int) =~= all);
        total
    }
}

// ---------------------------------------------------------------- showing

/// A text, or `unknown` where it holds nothing but white space.
pub open spec fn known(value: Seq<char>) -> Seq<char> {
    if trimmed(value).len() == 0 {
        "unknown"@
    } else {
        value
    }
}

/// A text, or `unknown` where it holds nothing but white space.
pub fn value_or_unknown<'a>(value: &'a str) -> (r: &'a str)
    ensures
        r@ == known(value@),
{
    if trim(value).is_empty() {
        "unknown"
    } else {
        value
    }
}

/// Each entry of a sheet, as its name and its value with an equals sign between.
pub open spec fn sheet_lines(entries: Seq<(Seq<char>, Seq<char>)>) -> Seq<Seq<char>> {
    entries.map_values(|e: (Seq<char>, Seq<char>)| e.0 + "="@ + e.1)
}

/// Each item behind its slot.
pub open spec fn item_lines(items: Seq<CapturedItem>) -> Seq<Seq<char>> {
    items.map_values(|item: CapturedItem| item.slot@ + ": "@ + item.name@)
}

/// A gem behind its group, with its level and quality.
pub open spec fn gem_line(gem: CapturedGem) -> Seq<char> {
    gem.group@ + ": "@ + gem.name@ + " (level "@ + decimal(gem.level as nat) + ", quality "@
        + decimal_with_sign(gem.quality as int) + "%)"@
}

/// Each gem behind its group, with its level and quality.
pub open spec fn gem_lines(gems: Seq<CapturedGem>) -> Seq<Seq<char>> {
    gems.map_values(|gem: CapturedGem| gem_line(gem))
}

fn write_sheet(stats: &TextMap) -> (r: Vec<String>)
    ensures
        views(r@) == sheet_lines(stats.listing()),
{
    let ghost all = sheet_lines(stats.listing());
    let mut out: Vec<String> = Vec::new();
    let count: usize = stats.len();
    let mut i: usize = 0;
    while i < count
        invariant
            i <= count,
            count == stats.listing().len(),
            all == sheet_lines(stats.listing()),
            views(out@) == all.take(i as int),
        decreases count - i,
    {
        let mut text = stats.key(i).to_string();
        text.append("=");
        text.append(stats.value(i));
        let ghost before = views(out@);
        out.push(text);
        proof {
            assert(views(out@) =~= before.push(text@));
            assert(all.take(i + 1) =~= all.take(i as int).push(text@));
        }
        i = i + 1;
    }
    assert(all.take(i as int) =~= all);
    out
}

fn write_items(items: &Vec<CapturedItem>) -> (r: Vec<String>)
    ensures
        views(r@) == item_lines(items@),
{
    let ghost all = item_lines(items@);
    let mut out: Vec<String> = Vec::new();
    let mut i: usize = 0;
    while i < items.len()
        invariant
            i <= items@.len(),
            all == item_lines(items@),
            views(out@) == all.take(i as int),
        decreases items@.len() - i,
    {
        let mut text = items[i].slot.clone();
        text.append(": ");
        text.append(&items[i].name);
        let ghost before = views(out@);
        out.push(text);
        proof {
            assert(views(out@) =~= before.push(text@));
            assert(all.take(i + 1) =~= all.take(i as int).push(text@));
        }
        i = i + 1;
    }
    assert(all.take(i as int) =~= all);
    out
}

fn write_gem(gem: &CapturedGem) -> (r: String)
    ensures
        r@ == gem_line(*gem),
{
    let mut text = gem.group.clone();
    text.append(": ");
    text.append(&gem.name);
    text.append(" (level ");
    text.append(&write_u64(gem.level as u64));
    text.append(", quality ");
    text.append(&write_i32_with_sign(gem.quality));
    text.append("%)");
    text
}

fn write_gems(gems: &Vec<CapturedGem>) -> (r: Vec<String>)
    ensures
        views(r@) == gem_lines(gems@),
{
    let ghost all = gem_lines(gems@);
    let mut out: Vec<String> = Vec::new();
    let mut i: usize = 0;
    while i < gems.len()
        invariant
            i <= gems@.len(),
            all == gem_lines(gems@),
            views(out@) == all.take(i as int),
        decreases gems@.len() - i,
    {
        let text = write_gem(&gems[i]);
        let ghost before = views(out@);
        out.push(text);
        proof {
            assert(views(out@) =~= before.push(text@));
            assert(all.take(i + 1) =~= all.take(i as int).push(text@));
        }
        i = i + 1;
    }
    assert(all.take(i as int) =~= all);
    out
}

impl OfflineCharacter {
    /// The character in a few lines.
    pub open spec fn summary_text(self) -> Seq<char> {
        known(self.name@) + " | Level "@ + decimal(self.level as nat) + " "@ + known(
            self.class_name@,
        ) + " "@ + known(self.ascendancy@) + " | League "@ + known(self.league@)
            + "\nCharacter sheet: "@ + joined(sheet_lines(self.sheet_stats.listing()), ", "@)
            + "\nEquipment: "@ + joined(item_lines(self.items@), ", "@) + "\nCaptured gems: "@
            + joined(gem_lines(self.gems@), ", "@)
    }

    /// The character in a few lines.
    pub fn summary(&self) -> (r: String)
        ensures
            r@ == self.summary_text(),
    {
        let mut out = value_or_unknown(&self.name).to_string();
        out.append(" | Level ");
        out.append(&write_u64(self.level as u64));
        out.append(" ");
        out.append(value_or_unknown(&self.class_name));
        out.append(" ");
        out.append(value_or_unknown(&self.ascendancy));
        out.append(" | League ");
        out.append(value_or_unknown(&self.league));
        out.append("\nCharacter sheet: ");
        out.append(&join(&write_sheet(&self.sheet_stats), ", "));
        out.append("\nEquipment: ");
        out.append(&join(&write_items(&self.items), ", "));
        out.append("\nCaptured gems: ");
        out.append(&join(&write_gems(&self.gems), ", "));
        out
    }
}

} // verus!
