//! What a captured character lacks, as far as the captured values tell.

use vstd::prelude::*;
use vstd::string::*;
use crate::bonuses::fits;
use crate::character::{CapturedGem, OfflineCharacter};
use crate::item_text::{number_in, parse_number};
use crate::number::{decimal, signed_decimal, write_i32, write_u64};
use crate::order::{count_distinct, distinct_count};
use crate::text::{
    contains, holds, lowered, option_text, present, push_present, same_text, to_lowercase, views,
};

verus! {

/// What a captured character lacks.
#[derive(Debug, Clone, PartialEq, Eq)]
pub struct LocalBuildAssessment {
    pub captured_life: Option<i32>,
    pub captured_energy_shield: Option<i32>,
    pub raw_life_es_pool: Option<i32>,
    pub resistance_gaps: Vec<String>,
    pub warnings: Vec<String>,
    pub gem_groups: usize,
    pub coverage: Vec<(String, bool)>,
}

/// The numbers and texts of [`LocalBuildAssessment`].
pub struct AssessmentContent {
    pub captured_life: Option<int>,
    pub captured_energy_shield: Option<int>,
    pub raw_life_es_pool: Option<int>,
    pub resistance_gaps: Seq<Seq<char>>,
    pub warnings: Seq<Seq<char>>,
    pub gem_groups: nat,
    pub coverage: Seq<(Seq<char>, bool)>,
}

/// A number that may be missing.
pub open spec fn option_number(n: Option<i32>) -> Option<int> {
    match n {
        Some(n) => Some(n as int),
        None => None,
    }
}

impl View for LocalBuildAssessment {
    type V = AssessmentContent;

    open spec fn view(&self) -> AssessmentContent {
        AssessmentContent {
            captured_life: option_number(self.captured_life),
            captured_energy_shield: option_number(self.captured_energy_shield),
            raw_life_es_pool: option_number(self.raw_life_es_pool),
            resistance_gaps: views(self.resistance_gaps@),
            warnings: views(self.warnings@),
            gem_groups: self.gem_groups as nat,
            coverage: self.coverage@.map_values(|c: (String, bool)| (c.0@, c.1)),
        }
    }
}

impl Default for LocalBuildAssessment {
    fn default() -> (r: Self)
        ensures
            r.captured_life is None,
            r.captured_energy_shield is None,
            r.raw_life_es_pool is None,
            r.resistance_gaps@.len() == 0,
            r.warnings@.len() == 0,
            r.gem_groups == 0,
            r.coverage@.len() == 0,
    {
        LocalBuildAssessment {
            captured_life: None,
            captured_energy_shield: None,
            raw_life_es_pool: None,
            resistance_gaps: Vec::new(),
            warnings: Vec::new(),
            gem_groups: 0,
            coverage: Vec::new(),
        }
    }
}

// ---------------------------------------------------------------- numbers of the sheet

/// The number that the sheet shows under a name.
pub open spec fn sheet_value(character: OfflineCharacter, name: Seq<char>) -> Option<int> {
    if character.sheet_stats@.contains_key(name) {
        number_in(character.sheet_stats@[name])
    } else {
        None
    }
}

/// The number that the sheet shows under a name.
pub fn sheet_number(character: &OfflineCharacter, name: &str) -> (r: Option<i32>)
    ensures
        option_number(r) == sheet_value(*character, name@),
{
    match character.sheet_stats.get(name) {
        Some(value) => parse_number(value),
        None => None,
    }
}

/// Life and energy shield together, as far as they are known.
pub open spec fn pool(life: Option<int>, energy_shield: Option<int>) -> Option<int> {
    match (life, energy_shield) {
        (Some(life), Some(energy_shield)) => Some(life + energy_shield),
        (Some(life), None) => Some(life),
        (None, energy_shield) => energy_shield,
    }
}

/// What is told of a resistance that is not at its cap, or that is not known.
pub open spec fn resistance_gap(character: OfflineCharacter, name: Seq<char>) -> Option<Seq<char>> {
    match sheet_value(character, name) {
        Some(value) => if value < 75 {
            Some(name + ": "@ + signed_decimal(75 - value) + "% below 75%"@)
        } else {
            None
        },
        None => Some(name + ": not captured"@),
    }
}

/// Whether the distance of a resistance to its cap fits.
pub open spec fn gap_fits(character: OfflineCharacter, name: Seq<char>) -> bool {
    match sheet_value(character, name) {
        Some(value) => value < 75 ==> fits(75 - value),
        None => true,
    }
}

fn write_gap(character: &OfflineCharacter, name: &str) -> (r: Option<String>)
    requires
        gap_fits(*character, name@),
    ensures
        option_text(r) == resistance_gap(*character, name@),
{
    match sheet_number(character, name) {
        Some(value) => if value < 75 {
            let mut text = name.to_string();
            text.append(": ");
            text.append(&write_i32(75 - value));
            text.append("% below 75%");
            Some(text)
        } else {
            None
        },
        None => {
            let mut text = name.to_string();
            text.append(": not captured");
            Some(text)
        },
    }
}

// ---------------------------------------------------------------- warnings

/// How many slots a character fills.
pub const SLOTS: usize = 8;

/// What is told of slots that are not captured.
pub open spec fn slot_warning(character: OfflineCharacter) -> Option<Seq<char>> {
    if character.items@.len() < SLOTS {
        Some(
            "Only "@ + decimal(character.items@.len()) + " equipment slots are captured"@,
        )
    } else {
        None
    }
}

/// What is told of the resistance to chaos.
pub open spec fn chaos_warning(character: OfflineCharacter) -> Option<Seq<char>> {
    match sheet_value(character, "Chaos Resistance"@) {
        Some(chaos) => if chaos < 0 {
            Some("Chaos Resistance is negative ("@ + signed_decimal(chaos) + "%)"@)
        } else {
            None
        },
        None => Some("Chaos Resistance is not captured"@),
    }
}

fn write_slot_warning(character: &OfflineCharacter) -> (r: Option<String>)
    ensures
        option_text(r) == slot_warning(*character),
{
    if character.items.len() < SLOTS {
        let mut text = "Only ".to_string();
        text.append(&write_u64(character.items.len() as u64));
        text.append(" equipment slots are captured");
        Some(text)
    } else {
        None
    }
}

fn write_chaos_warning(character: &OfflineCharacter) -> (r: Option<String>)
    ensures
        option_text(r) == chaos_warning(*character),
{
    match sheet_number(character, "Chaos Resistance") {
        Some(chaos) => if chaos < 0 {
            let mut text = "Chaos Resistance is negative (".to_string();
            text.append(&write_i32(chaos));
            text.append("%)");
            Some(text)
        } else {
            None
        },
        None => Some("Chaos Resistance is not captured".to_string()),
    }
}

/// What is told of gems that are not captured.
pub open spec fn gem_warning(character: OfflineCharacter) -> Option<Seq<char>> {
    if character.gems@.len() == 0 {
        Some("No skill gems are captured"@)
    } else {
        None
    }
}

/// What is told of a passive tree that is not captured.
pub open spec fn tree_warning(character: OfflineCharacter) -> Option<Seq<char>> {
    if character.passive_tree_url@.len() == 0 {
        Some("Passive tree is missing"@)
    } else {
        None
    }
}

// ---------------------------------------------------------------- gems

/// The groups of the gems, in lower case.
pub open spec fn lowered_groups(gems: Seq<CapturedGem>) -> Seq<Seq<char>> {
    gems.map_values(|gem: CapturedGem| lowered(gem.group@))
}

fn count_groups(gems: &Vec<CapturedGem>) -> (n: usize)
    ensures
        n == distinct_count(lowered_groups(gems@)),
{
    let ghost all = lowered_groups(gems@);
    let mut groups: Vec<String> = Vec::new();
    let mut i: usize = 0;
    while i < gems.len()
        invariant
            i <= gems@.len(),
            all == lowered_groups(gems@),
            views(groups@) == all.take(i as int),
        decreases gems@.len() - i,
    {
        let group = to_lowercase(&gems[i].group);
        let ghost before = views(groups@);
        groups.push(group);
        proof {
            assert(views(groups@) =~= before.push(group@));
            assert(all.take(i + 1) =~= all.take(i as int).push(group@));
        }
        i = i + 1;
    }
    assert(all.take(i as int) =~= all);
    count_distinct(groups)
}

/// Whether a gem has one of the tags, whatever the case of its letters.
pub open spec fn gem_has_tag(gem: CapturedGem, tags: Seq<Seq<char>>) -> bool {
    exists|j: int| 0 <= j < gem.tags@.len() && tags.contains(lowered(#[trigger] gem.tags@[j]@))
}

/// Whether one of the gems has one of the tags, whatever the case of its letters.
pub open spec fn any_has_tag(gems: Seq<CapturedGem>, tags: Seq<Seq<char>>) -> bool {
    exists|i: int| 0 <= i < gems.len() && gem_has_tag(#[trigger] gems[i], tags)
}

/// Whether the name of a gem holds one of the texts, whatever the case of its letters.
pub open spec fn gem_name_holds(gem: CapturedGem, texts: Seq<Seq<char>>) -> bool {
    exists|j: int| 0 <= j < texts.len() && holds(lowered(gem.name@), #[trigger] texts[j])
}

/// Whether the name of one of the gems holds one of the texts, whatever the case of its letters.
pub open spec fn any_name_holds(gems: Seq<CapturedGem>, texts: Seq<Seq<char>>) -> bool {
    exists|i: int| 0 <= i < gems.len() && gem_name_holds(#[trigger] gems[i], texts)
}

fn holds_text(list: &Vec<String>, text: &str) -> (r: bool)
    ensures
        r == views(list@).contains(text@),
{
    let ghost all = views(list@);
    let mut i: usize = 0;
    while i < list.len()
        invariant
            i <= list@.len(),
            all == views(list@),
            forall|k: int| 0 <= k < i ==> #[trigger] all[k] != text@,
        decreases list@.len() - i,
    {
        if same_text(&list[i], text) {
            assert(all[i as int] == text@);
            return true;
        }
        i = i + 1;
    }
    false
}

fn has_tag(gem: &CapturedGem, tags: &Vec<String>) -> (r: bool)
    ensures
        r == gem_has_tag(*gem, views(tags@)),
{
    let mut i: usize = 0;
    while i < gem.tags.len()
        invariant
            i <= gem.tags@.len(),
            forall|j: int|
                0 <= j < i ==> !views(tags@).contains(lowered(#[trigger] gem.tags@[j]@)),
        decreases gem.tags@.len() - i,
    {
        if holds_text(tags, &to_lowercase(&gem.tags[i])) {
            assert(views(tags@).contains(lowered(gem.tags@[i as int]@)));
            return true;
        }
        i = i + 1;
    }
    false
}

fn find_tag(gems: &Vec<CapturedGem>, tags: &Vec<String>) -> (r: bool)
    ensures
        r == any_has_tag(gems@, views(tags@)),
{
    let mut i: usize = 0;
    while i < gems.len()
        invariant
            i <= gems@.len(),
            forall|k: int| 0 <= k < i ==> !gem_has_tag(#[trigger] gems@[k], views(tags@)),
        decreases gems@.len() - i,
    {
        if has_tag(&gems[i], tags) {
            return true;
        }
        i = i + 1;
    }
    false
}

fn name_holds(gem: &CapturedGem, texts: &Vec<String>) -> (r: bool)
    ensures
        r == gem_name_holds(*gem, views(texts@)),
{
    let name = to_lowercase(&gem.name);
    let ghost all = views(texts@);
    let mut i: usize = 0;
    while i < texts.len()
        invariant
            i <= texts@.len(),
            all == views(texts@),
            name@ == lowered(gem.name@),
            forall|k: int| 0 <= k < i ==> !holds(name@, #[trigger] all[k]),
        decreases texts@.len() - i,
    {
        if contains(&name, &texts[i]) {
            assert(holds(name@, all[i as int]));
            return true;
        }
        i = i + 1;
    }
    false
}

fn find_name(gems: &Vec<CapturedGem>, texts: &Vec<String>) -> (r: bool)
    ensures
        r == any_name_holds(gems@, views(texts@)),
{
    let mut i: usize = 0;
    while i < gems.len()
        invariant
            i <= gems@.len(),
            forall|k: int| 0 <= k < i ==> !gem_name_holds(#[trigger] gems@[k], views(texts@)),
        decreases gems@.len() - i,
    {
        if name_holds(&gems[i], texts) {
            return true;
        }
        i = i + 1;
    }
    false
}

/// The names of the guard skills.
pub open spec fn guard_skills() -> Seq<Seq<char>> {
    seq![
        "molten shell"@,
        "steelskin"@,
        "immortal call"@,
        "arcane cloak"@,
        "frost shield"@,
    ]
}

/// Which kinds of skills the gems cover.
pub open spec fn coverage_of(gems: Seq<CapturedGem>) -> Seq<(Seq<char>, bool)> {
    seq![
        ("Movement skill"@, any_has_tag(gems, seq!["movement"@])),
        ("Guard skill"@, any_name_holds(gems, guard_skills())),
        ("Aura or reservation skill"@, any_has_tag(gems, seq!["aura"@, "reservation"@])),
        ("Curse or mark"@, any_has_tag(gems, seq!["curse"@, "hex"@, "mark"@])),
    ]
}

fn list_coverage(gems: &Vec<CapturedGem>) -> (r: Vec<(String, bool)>)
    ensures
        r@.map_values(|c: (String, bool)| (c.0@, c.1)) == coverage_of(gems@),
{
    let movement: Vec<String> = vec!["movement".to_string()];
    let guard: Vec<String> = vec![
        "molten shell".to_string(),
        "steelskin".to_string(),
        "immortal call".to_string(),
        "arcane cloak".to_string(),
        "frost shield".to_string(),
    ];
    let aura: Vec<String> = vec!["aura".to_string(), "reservation".to_string()];
    let curse: Vec<String> = vec!["curse".to_string(), "hex".to_string(), "mark".to_string()];
    proof {
        assert(views(movement@) =~= seq!["movement"@]);
        assert(views(guard@) =~= guard_skills());
        assert(views(aura@) =~= seq!["aura"@, "reservation"@]);
        assert(views(curse@) =~= seq!["curse"@, "hex"@, "mark"@]);
    }
    let r: Vec<(String, bool)> = vec![
        ("Movement skill".to_string(), find_tag(gems, &movement)),
        ("Guard skill".to_string(), find_name(gems, &guard)),
        ("Aura or reservation skill".to_string(), find_tag(gems, &aura)),
        ("Curse or mark".to_string(), find_tag(gems, &curse)),
    ];
    assert(r@.map_values(|c: (String, bool)| (c.0@, c.1)) =~= coverage_of(gems@));
    r
}

// ---------------------------------------------------------------- the assessment

/// What a captured character lacks.
pub open spec fn assessment_of(character: OfflineCharacter) -> AssessmentContent {
    let life = sheet_value(character, "Life"@);
    let energy_shield = sheet_value(character, "Energy Shield"@);
    AssessmentContent {
        captured_life: life,
        captured_energy_shield: energy_shield,
        raw_life_es_pool: pool(life, energy_shield),
        resistance_gaps: present(
            seq![
                resistance_gap(character, "Fire Resistance"@),
                resistance_gap(character, "Cold Resistance"@),
                resistance_gap(character, "Lightning Resistance"@),
            ],
        ),
        warnings: present(
            seq![
                slot_warning(character),
                gem_warning(character),
                tree_warning(character),
                chaos_warning(character),
            ],
        ),
        gem_groups: distinct_count(lowered_groups(character.gems@)),
        coverage: coverage_of(character.gems@),
    }
}

/// Whether every number of the assessment fits.
pub open spec fn assessment_fits(character: OfflineCharacter) -> bool {
    &&& match pool(sheet_value(character, "Life"@), sheet_value(character, "Energy Shield"@)) {
        Some(n) => fits(n),
        None => true,
    }
    &&& gap_fits(character, "Fire Resistance"@)
    &&& gap_fits(character, "Cold Resistance"@)
    &&& gap_fits(character, "Lightning Resistance"@)
}

fn resistance_can_be_told(character: &OfflineCharacter, name: &str) -> (r: bool)
    ensures
        r == gap_fits(*character, name@),
{
    match sheet_number(character, name) {
        Some(value) => value >= 75 - i32::MAX,
        None => true,
    }
}

/// Whether every number of the assessment fits.
pub fn can_be_assessed(character: &OfflineCharacter) -> (r: bool)
    ensures
        r == assessment_fits(*character),
{
    let life = sheet_number(character, "Life");
    let energy_shield = sheet_number(character, "Energy Shield");
    let sum_fits = match (life, energy_shield) {
        (Some(life), Some(energy_shield)) => life.checked_add(energy_shield).is_some(),
        _ => true,
    };
    sum_fits && resistance_can_be_told(character, "Fire Resistance") && resistance_can_be_told(
        character,
        "Cold Resistance",
    ) && resistance_can_be_told(character, "Lightning Resistance")
}

fn list_gaps(character: &OfflineCharacter) -> (r: Vec<String>)
    requires
        assessment_fits(*character),
    ensures
        views(r@) == assessment_of(*character).resistance_gaps,
{
    let ghost fire = resistance_gap(*character, "Fire Resistance"@);
    let ghost cold = resistance_gap(*character, "Cold Resistance"@);
    let ghost lightning = resistance_gap(*character, "Lightning Resistance"@);
    let mut gaps: Vec<String> = Vec::new();
    proof {
        assert(views(gaps@) =~= present(seq![]));
        assert(seq![fire].drop_last() =~= seq![]);
        assert(seq![fire, cold].drop_last() =~= seq![fire]);
        assert(seq![fire, cold, lightning].drop_last() =~= seq![fire, cold]);
    }
    push_present(&mut gaps, write_gap(character, "Fire Resistance"));
    assert(views(gaps@) =~= present(seq![fire]));
    push_present(&mut gaps, write_gap(character, "Cold Resistance"));
    assert(views(gaps@) =~= present(seq![fire, cold]));
    push_present(&mut gaps, write_gap(character, "Lightning Resistance"));
    gaps
}

fn list_warnings(character: &OfflineCharacter) -> (r: Vec<String>)
    ensures
        views(r@) == assessment_of(*character).warnings,
{
    let ghost slots = slot_warning(*character);
    let ghost gems = gem_warning(*character);
    let ghost tree = tree_warning(*character);
    let ghost chaos = chaos_warning(*character);
    let mut warnings: Vec<String> = Vec::new();
    proof {
        assert(views(warnings@) =~= present(seq![]));
        assert(seq![slots].drop_last() =~= seq![]);
        assert(seq![slots, gems].drop_last() =~= seq![slots]);
        assert(seq![slots, gems, tree].drop_last() =~= seq![slots, gems]);
        assert(seq![slots, gems, tree, chaos].drop_last() =~= seq![slots, gems, tree]);
    }
    push_present(&mut warnings, write_slot_warning(character));
    assert(views(warnings@) =~= present(seq![slots]));
    if character.gems.len() == 0 {
        push_present(&mut warnings, Some("No skill gems are captured".to_string()));
    }
    assert(views(warnings@) =~= present(seq![slots, gems]));
    if character.passive_tree_url.as_str().is_empty() {
        push_present(&mut warnings, Some("Passive tree is missing".to_string()));
    }
    assert(views(warnings@) =~= present(seq![slots, gems, tree]));
    push_present(&mut warnings, write_chaos_warning(character));
    warnings
}

/// What a captured character lacks.
pub fn assess_character(character: &OfflineCharacter) -> (r: LocalBuildAssessment)
    requires
        assessment_fits(*character),
    ensures
        r@ == assessment_of(*character),
{
    let captured_life = sheet_number(character, "Life");
    let captured_energy_shield = sheet_number(character, "Energy Shield");
    let raw_life_es_pool = match (captured_life, captured_energy_shield) {
        (Some(life), Some(energy_shield)) => Some(life + energy_shield),
        (Some(life), None) => Some(life),
        (None, Some(energy_shield)) => Some(energy_shield),
        (None, None) => None,
    };
    LocalBuildAssessment {
        captured_life,
        captured_energy_shield,
        raw_life_es_pool,
        resistance_gaps: list_gaps(character),
        warnings: list_warnings(character),
        gem_groups: count_groups(&character.gems),
        coverage: list_coverage(&character.gems),
    }
}

} // verus!
