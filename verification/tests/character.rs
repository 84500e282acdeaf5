use base64::{engine::general_purpose, Engine as _};
use exile_companion::assessment::{assess_character, can_be_assessed, LocalBuildAssessment};
use exile_companion::bonuses::ItemBonuses;
use exile_companion::character::{
    value_or_unknown, CaptureFreshness, CapturedGem, CapturedItem, OfflineCharacter,
};
use exile_companion::gem_text::{parse_gem_text, GemTextError};
use exile_companion::identity::{
    apply_known_class, identity_from_matches, parse_character_identity_text,
    DetectedCharacterIdentity, IdentityError, IdentityMatches,
};
use exile_companion::item_text::{
    item_bonuses, item_frame, parse_item_text, parse_number, property_value, total,
    try_parse_item_text, ItemTextError, StatMatches,
};
use exile_companion::order::TextMap;
use exile_companion::links::Link;
use exile_companion::passive_tree::{inspect_passive_tree_url, read_tree, tree_code, TreeError};
use exile_companion::sheet::{
    merge_values, nearest_value, parse_character_sheet_text, value_near_label, SheetError,
};

#[test]
fn parses_copied_item_and_sums_resistances() {
    let item = parse_item_text(
        "Helmet",
        "Item Class: Helmets\nRarity: Rare\nDoom Crown\nHubris Circlet\n--------\nEnergy Shield: 210 (augmented)\n--------\n+72 to maximum Life\n+35% to Fire Resistance\n+12% to all Elemental Resistances\n+24 to Intelligence",
    )
    .unwrap();
    assert_eq!(item.name, "Doom Crown");
    assert_eq!(item.base_type, "Hubris Circlet");
    assert_eq!(item.bonuses.life, 72);
    assert_eq!(item.bonuses.energy_shield, 210);
    assert_eq!(item.bonuses.fire_resistance, 47);
    assert_eq!(item.bonuses.cold_resistance, 12);
}

#[test]
fn parses_common_ocr_layouts() {
    let stats = parse_character_sheet_text(
        "Life: 4,123\n75% Fire Resistance\nDamage per Second 1,245.6\nEnergy Shield - 820",
    )
    .unwrap();
    assert_eq!(stats.get("Life"), Some("4,123"));
    assert_eq!(stats.get("Fire Resistance"), Some("75%"));
    assert_eq!(stats.get("Energy Shield"), Some("820"));
}

#[test]
fn parses_copied_gem_and_assesses_character() {
    let gem = parse_gem_text(
        "Main skill",
        "Item Class: Skill Gems\nRarity: Gem\nFireball\n--------\nSpell, Projectile, Fire\nLevel: 20\nQuality: +20%",
    )
    .unwrap();
    assert_eq!(gem.name, "Fireball");
    assert_eq!(gem.level, 20);
    assert_eq!(gem.quality, 20);
    let mut character = OfflineCharacter::default();
    character.gems.push(gem);
    character.sheet_stats.insert("Life".into(), "4,000".into());
    character
        .sheet_stats
        .insert("Fire Resistance".into(), "60%".into());
    let assessment = assess_character(&character);
    assert_eq!(assessment.raw_life_es_pool, Some(4000));
    assert!(assessment
        .resistance_gaps
        .iter()
        .any(|gap| gap.contains("15%")));
}

#[test]
fn parses_labelled_character_identity() {
    let identity = parse_character_identity_text(
        "Character Name: BoneCollector\nLevel: 94\nAscendancy: Necromancer\nLeague: Settlers",
    )
    .unwrap();
    assert_eq!(identity.name.as_deref(), Some("BoneCollector"));
    assert_eq!(identity.level, Some(94));
    assert_eq!(identity.class_name.as_deref(), Some("Witch"));
    assert_eq!(identity.ascendancy.as_deref(), Some("Necromancer"));
    assert_eq!(identity.league.as_deref(), Some("Settlers"));
}

#[test]
fn parses_compact_character_identity() {
    let identity = parse_character_identity_text("MapRunner - Level 88 Pathfinder").unwrap();
    assert_eq!(identity.name.as_deref(), Some("MapRunner"));
    assert_eq!(identity.level, Some(88));
    assert_eq!(identity.class_name.as_deref(), Some("Ranger"));
    assert_eq!(identity.ascendancy.as_deref(), Some("Pathfinder"));
}

#[test]
fn inspects_official_version_six_tree() {
    let bytes = [
        0, 0, 0, 6, 3, 2, 2, 0x12, 0x34, 0x56, 0x78, 1, 0x9a, 0xbc, 1, 0, 1, 0, 2,
    ];
    let code = general_purpose::URL_SAFE_NO_PAD.encode(bytes);
    let info = inspect_passive_tree_url(&format!(
        "https://www.pathofexile.com/passive-skill-tree/3.28.0/{code}"
    ))
    .unwrap();
    assert_eq!(info.version, 6);
    assert_eq!(info.allocated_nodes, 2);
    assert_eq!(info.extended_nodes, 1);
    assert_eq!(info.masteries, 1);
    assert_eq!(info.allocated_node_ids, vec![0x1234, 0x5678]);
}

#[test]
fn rejects_non_official_tree_urls() {
    assert!(inspect_passive_tree_url("https://example.com/passive-skill-tree/abc").is_err());
}

// ---------------------------------------------------------------- items

#[test]
fn every_bonus_of_an_item_is_read() {
    let text = "Rarity: Unique\nName\nBase\n--------\nArmour: 1,234\nEvasion Rating: 56 (augmented)\nEnergy Shield: 7\n--------\n+1,000 to maximum Life\n+5 to maximum Life\n+6 to maximum Mana (implicit)\n+8 to maximum Energy Shield\n-9% to Cold Resistance\n+-4% to Lightning Resistance\n+3% to Chaos Resistance\n+10% to all Elemental Resistances\n+11 to Strength\n+12 to Dexterity\n+13 to Intelligence\n+99 to maximum Lifetime";
    let item = parse_item_text(" Ring ", text).unwrap();
    assert_eq!(
        item.bonuses,
        ItemBonuses {
            life: 1005,
            mana: 6,
            energy_shield: 15,
            armour: 1234,
            evasion: 56,
            fire_resistance: 10,
            cold_resistance: 1,
            lightning_resistance: 6,
            chaos_resistance: 3,
            strength: 11,
            dexterity: 12,
            intelligence: 13,
        }
    );
    assert_eq!(item.slot, "Ring");
    assert_eq!(item.rarity, "Unique");
    assert_eq!(item.item_class, "");
    assert_eq!(item.raw_text, text);
}

#[test]
fn a_plain_item_is_named_after_its_base() {
    let item = parse_item_text("", "\n Rarity: Normal\n\n--------\n Iron Ring \n").unwrap();
    assert_eq!(item.name, "Iron Ring");
    assert_eq!(item.base_type, "Iron Ring");
    let item = parse_item_text("", "Rarity: RELIC").unwrap();
    assert_eq!(item.name, "Unknown item");
    assert_eq!(item.base_type, "");
    let item = parse_item_text("", "Rarity: Magic").unwrap();
    assert_eq!(item.base_type, "Unknown item");
    let item = parse_item_text("", "Rarity:Rarity: Rare\nA\nB\nC").unwrap();
    assert_eq!((item.rarity.as_str(), item.name.as_str(), item.base_type.as_str()), ("Rare", "A", "B"));
}

#[test]
fn what_is_no_item() {
    assert_eq!(parse_item_text("x", "  \n "), Err(ItemTextError::NoText));
    assert_eq!(parse_item_text("x", "Item Class: Rings\nA"), Err(ItemTextError::NoRarity));
    assert_eq!(
        ItemTextError::NoText.message(),
        "copy an item in Path of Exile and paste its text here"
    );
    assert_eq!(
        ItemTextError::NoRarity.message(),
        "this does not look like Path of Exile item text (missing Rarity)"
    );
    assert_eq!(ItemTextError::Pattern.message(), "an item pattern is invalid");
}

#[test]
fn bonuses_that_are_too_large_are_noticed() {
    let large = "Rarity: Rare\nA\nB\n+2,147,483,647 to maximum Life\n+1 to maximum Life";
    assert_eq!(try_parse_item_text("x", large), Ok(None));
    let fitting = "Rarity: Rare\nA\nB\n+2,147,483,647 to maximum Life";
    assert_eq!(
        try_parse_item_text("x", fitting).unwrap().unwrap().bonuses.life,
        i32::MAX
    );
    assert_eq!(try_parse_item_text("x", "nothing"), Err(ItemTextError::NoRarity));
    let elements = "Rarity: Rare\nA\nB\n+2,147,483,647% to Fire Resistance\n+1% to all Elemental Resistances";
    assert_eq!(try_parse_item_text("x", elements), Ok(None));
}

#[test]
fn a_line_for_all_elements_adds_to_three_resistances() {
    let texts = [
        "Item Class: Rings\nRarity: Rare\nDoom Loop\nTwo-Stone Ring\n+10 to Strength",
        "Rarity: Magic\nA\nB\nEnergy Shield: 12\n+7% to all Elemental Resistances\n+3% to Fire Resistance\n \n",
        "Rarity: Unique\nA\n--------\nB\n+20 to maximum Life\n+5% to Chaos Resistance\r\n",
    ];
    for text in texts {
        for n in [0, 5, 40] {
            let before = parse_item_text("Ring", text).unwrap();
            let longer = format!("{text}\n+{n}% to all Elemental Resistances");
            let after = parse_item_text("Ring", &longer).unwrap();
            let mut expected = before.clone();
            expected.bonuses.fire_resistance += n;
            expected.bonuses.cold_resistance += n;
            expected.bonuses.lightning_resistance += n;
            expected.raw_text = longer.trim().to_string();
            assert_eq!(after, expected);
        }
    }
}

#[test]
fn space_around_an_item_is_ignored() {
    let plain = parse_item_text("Ring", "Rarity: Rare\nA\nB\n+5 to Strength");
    let spaced = parse_item_text(" Ring\t", "\n  Rarity: Rare\nA\nB\n+5 to Strength \n\n");
    assert_eq!(plain, spaced);
}

fn matches_of(values: &[&str]) -> Vec<Vec<Option<String>>> {
    values
        .iter()
        .map(|v| vec![Some(format!("+{v}")), Some(v.to_string())])
        .collect()
}

#[test]
fn matches_add_up() {
    assert_eq!(total(&matches_of(&["1,000", "-5", "x", "7%"])), Some(1002));
    assert_eq!(total(&matches_of(&[])), Some(0));
    assert_eq!(total(&matches_of(&["2147483647", "1", "-1"])), None);
    assert_eq!(total(&vec![vec![None], vec![], vec![None, None]]), Some(0));
    let m = StatMatches {
        life: matches_of(&["1"]),
        mana: matches_of(&["2"]),
        energy_shield: matches_of(&["3"]),
        fire_resistance: matches_of(&["4"]),
        cold_resistance: matches_of(&["5"]),
        lightning_resistance: matches_of(&["6"]),
        chaos_resistance: matches_of(&["7"]),
        strength: matches_of(&["8"]),
        dexterity: matches_of(&["9"]),
        intelligence: matches_of(&["10"]),
        all_resistances: matches_of(&["100"]),
    };
    let bonuses = item_bonuses("Energy Shield: 20\nArmour: 30", &m).unwrap();
    assert_eq!(bonuses.energy_shield, 23);
    assert_eq!(bonuses.armour, 30);
    assert_eq!(bonuses.evasion, 0);
    assert_eq!(bonuses.fire_resistance, 104);
    assert_eq!(bonuses.cold_resistance, 105);
    assert_eq!(bonuses.lightning_resistance, 106);
    assert_eq!(bonuses.chaos_resistance, 7);
    assert_eq!(bonuses.intelligence, 10);
}

#[test]
fn a_frame_has_no_bonuses() {
    let frame = item_frame("a", "Rarity: Rare\nN\nB\n+5 to Strength").unwrap();
    assert_eq!(frame.bonuses, ItemBonuses::default());
    assert_eq!(frame.name, "N");
}

#[test]
fn numbers_may_hold_commas_and_percent_signs() {
    assert_eq!(parse_number(" 1,234%% "), Some(1234));
    assert_eq!(parse_number("+20%"), Some(20));
    assert_eq!(parse_number("-7"), Some(-7));
    assert_eq!(parse_number("%"), None);
    assert_eq!(parse_number("1.5"), None);
    assert_eq!(parse_number("2147483648"), None);
    assert_eq!(parse_number("-2147483648"), Some(i32::MIN));
}

#[test]
fn the_first_number_of_a_property_counts() {
    assert_eq!(property_value("Armour: x\n  Armour: 12 (augmented)\nArmour: 13", "Armour"), 12);
    assert_eq!(property_value("Armours: 12", "Armour"), 0);
    assert_eq!(property_value("Armour:", "Armour"), 0);
}

// ---------------------------------------------------------------- gems

#[test]
fn a_gem_may_lack_everything_but_its_name() {
    let gem = parse_gem_text(" Link 1 ", "Rarity: Gem\nArc").unwrap();
    assert_eq!(
        gem,
        CapturedGem {
            group: "Link 1".to_string(),
            name: "Arc".to_string(),
            level: 1,
            quality: 0,
            tags: vec![],
            raw_text: "Rarity: Gem\nArc".to_string(),
        }
    );
    let gem = parse_gem_text("", "Rarity: Gem\nArc\n--------\nSpell, Lightning , \nLevel: 21 (Max)\nQuality: x").unwrap();
    assert_eq!(gem.level, 21);
    assert_eq!(gem.quality, 0);
    assert_eq!(gem.tags, vec!["Spell", "Lightning", ""]);
    let gem = parse_gem_text("", "Rarity: Gem\nArc\n--------\nSpell\nLevel: -1\nQuality: -3%").unwrap();
    assert_eq!(gem.level, 1);
    assert_eq!(gem.quality, -3);
    assert!(gem.tags.is_empty());
}

#[test]
fn what_is_no_gem() {
    assert_eq!(parse_gem_text("x", " "), Err(GemTextError::NoText));
    assert_eq!(parse_gem_text("x", "Arc"), Err(GemTextError::NoRarity));
    assert_eq!(parse_gem_text("x", "Rarity: Gem"), Err(GemTextError::NoName));
    assert_eq!(parse_gem_text("x", "Rarity: Gem\n--------\nArc"), Err(GemTextError::NoName));
    assert_eq!(GemTextError::NoText.message(), "copy a skill or support gem in Path of Exile first");
    assert_eq!(GemTextError::NoRarity.message(), "this does not look like copied Path of Exile gem text");
    assert_eq!(GemTextError::NoName.message(), "gem name is missing");
}

#[test]
fn space_around_a_gem_is_ignored() {
    assert_eq!(
        parse_gem_text(" A ", "\nRarity: Gem\nArc\n"),
        parse_gem_text("A", "Rarity: Gem\nArc")
    );
}

// ---------------------------------------------------------------- characters

fn item(slot: &str, name: &str, bonuses: ItemBonuses) -> CapturedItem {
    CapturedItem {
        slot: slot.to_string(),
        item_class: String::new(),
        rarity: String::new(),
        name: name.to_string(),
        base_type: String::new(),
        bonuses,
        raw_text: String::new(),
    }
}

fn gem(group: &str, name: &str, tags: &[&str]) -> CapturedGem {
    CapturedGem {
        group: group.to_string(),
        name: name.to_string(),
        level: 20,
        quality: -1,
        tags: tags.iter().map(|t| t.to_string()).collect(),
        raw_text: String::new(),
    }
}

fn bonus(n: i32) -> ItemBonuses {
    ItemBonuses {
        life: n,
        mana: n + 1,
        energy_shield: n + 2,
        armour: n + 3,
        evasion: n + 4,
        fire_resistance: n + 5,
        cold_resistance: n + 6,
        lightning_resistance: n + 7,
        chaos_resistance: n + 8,
        strength: n + 9,
        dexterity: n + 10,
        intelligence: n + 11,
    }
}

#[test]
fn bonuses_add_field_by_field() {
    let mut sum = bonus(1);
    sum.add(&bonus(100));
    assert_eq!(
        sum,
        ItemBonuses {
            life: 101,
            mana: 103,
            energy_shield: 105,
            armour: 107,
            evasion: 109,
            fire_resistance: 111,
            cold_resistance: 113,
            lightning_resistance: 115,
            chaos_resistance: 117,
            strength: 119,
            dexterity: 121,
            intelligence: 123,
        }
    );
    assert_eq!(bonus(1).checked_sum(&bonus(100)), Some(sum));
    assert_eq!(bonus(1).checked_sum(&bonus(100)), bonus(100).checked_sum(&bonus(1)));
    assert_eq!(ItemBonuses { mana: i32::MAX, ..ItemBonuses::default() }.checked_sum(&bonus(0)), None);
}

#[test]
fn equipment_adds_up_in_any_order() {
    let mut character = OfflineCharacter::default();
    assert_eq!(character.equipment_bonuses(), ItemBonuses::default());
    character.items = vec![item("a", "A", bonus(1)), item("b", "B", bonus(20)), item("c", "C", bonus(-7))];
    let total = character.equipment_bonuses();
    assert_eq!(total.life, 14);
    assert_eq!(total.intelligence, 47);
    character.items.reverse();
    assert_eq!(character.equipment_bonuses(), total);
    assert_eq!(character.checked_equipment_bonuses(), Some(total));
    character.items.push(item("d", "D", ItemBonuses { life: i32::MAX, ..ItemBonuses::default() }));
    assert_eq!(character.checked_equipment_bonuses(), None);
}

#[test]
fn a_character_is_summed_up() {
    let mut character = OfflineCharacter::default();
    assert_eq!(
        character.summary(),
        "unknown | Level 0 unknown unknown | League unknown\nCharacter sheet: \nEquipment: \nCaptured gems: "
    );
    character.name = "Bone".to_string();
    character.class_name = " ".to_string();
    character.ascendancy = "Necromancer".to_string();
    character.league = "SSF".to_string();
    character.level = 94;
    character.sheet_stats.insert("Mana".into(), "1".into());
    character.sheet_stats.insert("Life".into(), "4,000".into());
    character.items = vec![item("Ring", "Coil", bonus(0)), item("Belt", "Cord", bonus(0))];
    character.gems = vec![gem("Main", "Arc", &[])];
    assert_eq!(
        character.summary(),
        "Bone | Level 94 unknown Necromancer | League SSF\nCharacter sheet: Life=4,000, Mana=1\nEquipment: Ring: Coil, Belt: Cord\nCaptured gems: Main: Arc (level 20, quality -1%)"
    );
    character.gems[0].quality = 0;
    assert!(character.summary().ends_with("(level 20, quality +0%)"));
}

#[test]
fn values_of_white_space_are_unknown() {
    assert_eq!(value_or_unknown(" \t"), "unknown");
    assert_eq!(value_or_unknown(" x "), " x ");
}

#[test]
fn nothing_is_captured_by_default() {
    let freshness = CaptureFreshness::default();
    assert_eq!(freshness.identity_at, None);
    assert_eq!(freshness.sheet_confidence, None);
    assert_eq!(OfflineCharacter::default().freshness, freshness);
    assert_eq!(CapturedGem::default().level, 0);
    assert_eq!(LocalBuildAssessment::default().gem_groups, 0);
    let copy = OfflineCharacter::default().clone();
    assert_eq!(copy, OfflineCharacter::default());
}

#[test]
fn an_empty_character_is_assessed() {
    let character = OfflineCharacter::default();
    assert!(can_be_assessed(&character));
    let assessment = assess_character(&character);
    assert_eq!(assessment.captured_life, None);
    assert_eq!(assessment.raw_life_es_pool, None);
    assert_eq!(
        assessment.resistance_gaps,
        vec![
            "Fire Resistance: not captured",
            "Cold Resistance: not captured",
            "Lightning Resistance: not captured"
        ]
    );
    assert_eq!(
        assessment.warnings,
        vec![
            "Only 0 equipment slots are captured",
            "No skill gems are captured",
            "Passive tree is missing",
            "Chaos Resistance is not captured"
        ]
    );
    assert_eq!(assessment.gem_groups, 0);
    assert_eq!(
        assessment.coverage,
        vec![
            ("Movement skill".to_string(), false),
            ("Guard skill".to_string(), false),
            ("Aura or reservation skill".to_string(), false),
            ("Curse or mark".to_string(), false)
        ]
    );
}

#[test]
fn a_full_character_is_assessed() {
    let mut character = OfflineCharacter::default();
    character.passive_tree_url = "x".to_string();
    for i in 0..8 {
        character.items.push(item("s", "n", bonus(i)));
    }
    character.gems = vec![
        gem("Main", "Vaal Molten Shell", &["Spell", "AURA"]),
        gem("main", "Dash", &["Movement"]),
        gem("Other", "Vulnerability", &["Hex"]),
    ];
    for (name, value) in [
        ("Life", "100"),
        ("Energy Shield", "23"),
        ("Fire Resistance", "75%"),
        ("Cold Resistance", "-10%"),
        ("Lightning Resistance", "74%"),
        ("Chaos Resistance", "-60%"),
    ] {
        character.sheet_stats.insert(name.to_string(), value.to_string());
    }
    let assessment = assess_character(&character);
    assert_eq!(assessment.raw_life_es_pool, Some(123));
    assert_eq!(
        assessment.resistance_gaps,
        vec!["Cold Resistance: 85% below 75%", "Lightning Resistance: 1% below 75%"]
    );
    assert_eq!(assessment.warnings, vec!["Chaos Resistance is negative (-60%)"]);
    assert_eq!(assessment.gem_groups, 2);
    assert!(assessment.coverage.iter().all(|(_, covered)| *covered));
    character.sheet_stats.insert("Chaos Resistance".into(), "0".into());
    assert!(assess_character(&character).warnings.is_empty());
}

#[test]
fn an_assessment_that_does_not_fit_is_noticed() {
    let mut character = OfflineCharacter::default();
    character.sheet_stats.insert("Life".into(), "2147483647".into());
    assert!(can_be_assessed(&character));
    character.sheet_stats.insert("Energy Shield".into(), "1".into());
    assert!(!can_be_assessed(&character));
    let mut character = OfflineCharacter::default();
    character.sheet_stats.insert("Fire Resistance".into(), "-2147483648".into());
    assert!(!can_be_assessed(&character));
    character.sheet_stats.insert("Fire Resistance".into(), "-2147483572".into());
    assert!(can_be_assessed(&character));
    assert_eq!(
        assess_character(&character).resistance_gaps[0],
        "Fire Resistance: 2147483647% below 75%"
    );
}

// ---------------------------------------------------------------- sheets

#[test]
fn the_first_value_of_a_sheet_stays() {
    let stats = parse_character_sheet_text("Life 1\nLife 2\n\n 5 Mana\nARMOR 7\nEvasion Rating: 8\nAttacks per Second 1.5\nCast per Second 2\nCritical Strike Chance 6.5%\nMovement Speed -3%\nChaos Resistance -60%\nCold Resistance 1\nLightning Resistance 2").unwrap();
    assert_eq!(stats.get("Life"), Some("1"));
    assert_eq!(stats.get("Mana"), Some("5"));
    assert_eq!(stats.get("Armour"), Some("7"));
    assert_eq!(stats.get("Evasion"), Some("8"));
    assert_eq!(stats.get("Attack Speed"), Some("1.5"));
    assert_eq!(stats.get("Cast Speed"), Some("2"));
    assert_eq!(stats.get("Critical Strike Chance"), Some("6.5%"));
    assert_eq!(stats.get("Movement Speed"), Some("3%"));
    assert_eq!(stats.get("Chaos Resistance"), Some("60%"));
    assert_eq!(stats.get("Fire Resistance"), None);
    assert_eq!(stats.len(), 11);
}

#[test]
fn a_sheet_without_values_is_refused() {
    assert_eq!(parse_character_sheet_text("nothing here").err(), Some(SheetError::Nothing));
    assert_eq!(parse_character_sheet_text("").err(), Some(SheetError::Nothing));
    assert_eq!(SheetError::Nothing.message(), "no supported character-sheet values were recognized");
    assert_eq!(SheetError::Pattern.message(), "a character-sheet pattern is invalid");
}

#[test]
fn a_value_stands_next_to_its_label() {
    assert_eq!(value_near_label("life: 5", "Life"), Ok(Some("5".to_string())));
    assert_eq!(value_near_label("5 LIFE", "Life"), Ok(Some("5".to_string())));
    assert_eq!(value_near_label("5 life 6", "Life"), Ok(Some("6".to_string())));
    assert_eq!(value_near_label("life", "Life"), Ok(None));
    assert_eq!(value_near_label("life", "("), Err(SheetError::Pattern));
    let found = |value: &str| Some(vec![None, Some(value.to_string())]);
    assert_eq!(nearest_value(&found("a"), &found("b")), Some("a".to_string()));
    assert_eq!(nearest_value(&None, &found("b")), Some("b".to_string()));
    assert_eq!(nearest_value(&Some(vec![]), &found("b")), None);
    assert_eq!(nearest_value(&None, &None), None);
}

#[test]
fn values_are_merged_under_their_names() {
    let mut stats = TextMap::new();
    stats.insert("Mana".into(), "old".into());
    let mut values: Vec<Option<String>> = vec![None; 14];
    values[0] = Some("a".to_string());
    values[1] = Some("b".to_string());
    values[13] = Some("c".to_string());
    merge_values(&mut stats, &values);
    assert_eq!(stats.get("Life"), Some("a"));
    assert_eq!(stats.get("Mana"), Some("old"));
    assert_eq!(stats.get("Movement Speed"), Some("c"));
    assert_eq!(stats.len(), 3);
}

// ---------------------------------------------------------------- identities

#[test]
fn labels_go_before_the_rest_of_the_text() {
    let identity = parse_character_identity_text(
        "Other - Level 3 Slayer\nName: Hero\nClass: Witch\nLevel: 101\nberserker",
    )
    .unwrap();
    assert_eq!(identity.name.as_deref(), Some("Hero"));
    assert_eq!(identity.class_name.as_deref(), Some("Witch"));
    assert_eq!(identity.ascendancy.as_deref(), Some("Slayer"));
    assert_eq!(identity.level, Some(3));
    assert_eq!(identity.league, None);
    assert!(identity.has_values());
}

#[test]
fn a_text_may_tell_nothing() {
    let identity = parse_character_identity_text("").unwrap();
    assert_eq!(identity, DetectedCharacterIdentity::default());
    assert!(!identity.has_values());
    assert_eq!(IdentityError::Pattern.message(), "an identity pattern is invalid");
    assert!(DetectedCharacterIdentity { level: Some(1), ..Default::default() }.has_values());
}

#[test]
fn words_name_classes_in_any_case() {
    let mut identity = DetectedCharacterIdentity::default();
    apply_known_class(&mut identity, "the TRICKSTER, a witch");
    assert_eq!(identity.ascendancy.as_deref(), Some("Trickster"));
    assert_eq!(identity.class_name.as_deref(), Some("Shadow"));
    apply_known_class(&mut identity, "Raider");
    assert_eq!(identity.ascendancy.as_deref(), Some("Trickster"));
    let mut identity = DetectedCharacterIdentity::default();
    apply_known_class(&mut identity, "Witches Marauder2 Ranger");
    assert_eq!(identity.class_name.as_deref(), Some("Marauder"));
    assert_eq!(identity.ascendancy, None);
}

#[test]
fn every_ascendancy_comes_with_its_class() {
    for (ascendancy, class) in [
        ("Juggernaut", "Marauder"),
        ("Berserker", "Marauder"),
        ("Chieftain", "Marauder"),
        ("Deadeye", "Ranger"),
        ("Raider", "Ranger"),
        ("Pathfinder", "Ranger"),
        ("Necromancer", "Witch"),
        ("Elementalist", "Witch"),
        ("Occultist", "Witch"),
        ("Slayer", "Duelist"),
        ("Gladiator", "Duelist"),
        ("Champion", "Duelist"),
        ("Inquisitor", "Templar"),
        ("Hierophant", "Templar"),
        ("Guardian", "Templar"),
        ("Assassin", "Shadow"),
        ("Saboteur", "Shadow"),
        ("Trickster", "Shadow"),
        ("Ascendant", "Scion"),
    ] {
        let mut identity = DetectedCharacterIdentity::default();
        apply_known_class(&mut identity, &ascendancy.to_uppercase());
        assert_eq!(identity.ascendancy.as_deref(), Some(ascendancy));
        assert_eq!(identity.class_name.as_deref(), Some(class));
    }
}

#[test]
fn matches_tell_an_identity() {
    let group = |texts: &[&str]| Some(texts.iter().map(|t| Some(t.to_string())).collect::<Vec<_>>());
    let matches = IdentityMatches {
        name: None,
        class_name: None,
        ascendancy: None,
        league: group(&["League: X", " X "]),
        level: group(&["Level 0", "0"]),
        compact: group(&["all", " Hero ", "100", " Scion "]),
    };
    let identity = identity_from_matches(&matches, "Ascendant\n");
    assert_eq!(identity.name.as_deref(), Some("Hero"));
    assert_eq!(identity.league.as_deref(), Some("X"));
    assert_eq!(identity.level, Some(100));
    assert_eq!(identity.class_name.as_deref(), Some("Scion"));
    assert_eq!(identity.ascendancy.as_deref(), Some("Ascendant"));
}

// ---------------------------------------------------------------- passive trees

fn url_of(bytes: &[u8]) -> String {
    let code = general_purpose::URL_SAFE.encode(bytes);
    format!(" https://pathofexile.com/fullscreen-passive-skill-tree/{code}// ")
}

#[test]
fn older_trees_are_read() {
    let info = inspect_passive_tree_url(&url_of(&[0, 0, 0, 4, 1, 0b1010_11, 9, 1, 2, 3, 4, 5])).unwrap();
    assert_eq!(info.version, 4);
    assert_eq!(info.class_id, 1);
    assert_eq!(info.ascendancy_id, 3);
    assert_eq!(info.bloodline_id, 10);
    assert_eq!(info.allocated_node_ids, vec![0x0102, 0x0304]);
    assert_eq!(info.masteries, 0);
    let info = inspect_passive_tree_url(&url_of(&[0, 0, 0, 5, 1, 0, 1, 1, 2, 0])).unwrap();
    assert_eq!(info.allocated_node_ids, vec![0x0102]);
    assert_eq!(info.extended_nodes, 0);
}

#[test]
fn each_fault_of_a_tree_is_told() {
    let error = |input: &str| inspect_passive_tree_url(input).unwrap_err();
    assert_eq!(error("no link"), TreeError::InvalidUrl);
    assert_eq!(error("http://pathofexile.com/passive-skill-tree/AAAA"), TreeError::NotOfficial);
    assert_eq!(error("https://pathofexile.com/tree/AAAA"), TreeError::NotOfficial);
    assert_eq!(error("https://pathofexile.com/passive-skill-tree/***"), TreeError::NotBase64);
    assert_eq!(error(&url_of(&[0, 0, 0, 6, 1, 0])), TreeError::Incomplete);
    assert_eq!(error(&url_of(&[0, 0, 0, 6, 1, 0, 2, 1, 1])), TreeError::NodesIncomplete);
    assert_eq!(error(&url_of(&[0, 0, 0, 6, 1, 0, 0, 0])), TreeError::Incomplete);
    assert_eq!(error(&url_of(&[0, 0, 0, 6, 1, 0, 0, 0, 1, 1])), TreeError::MasteriesIncomplete);
    assert_eq!(error(&url_of(&[0, 1, 0, 3, 1, 0, 0])), TreeError::UnsupportedVersion(65539));
    assert_eq!(read_tree(&vec![0, 0, 0, 6, 1, 0, 0, 0, 0]).unwrap().version, 6);
}

#[test]
fn a_tree_without_padding_is_read() {
    let bytes = [0, 0, 0, 4, 1, 0, 0, 1];
    let code = general_purpose::URL_SAFE_NO_PAD.encode(bytes);
    assert_eq!(code.len() % 4, 3);
    let info = inspect_passive_tree_url(&format!("https://www.pathofexile.com/passive-skill-tree/{code}"));
    assert_eq!(info.unwrap().class_id, 1);
}

#[test]
fn the_code_is_the_last_part_of_the_path() {
    let link = |path: &str| Link {
        scheme: "https".to_string(),
        username: String::new(),
        password: None,
        host: Some("pathofexile.com".to_string()),
        path: path.to_string(),
        query: None,
        fragment: None,
    };
    assert_eq!(tree_code(&link("/passive-skill-tree/abc//")), Ok("abc".to_string()));
    assert_eq!(tree_code(&link("passive-skill-tree")), Err(TreeError::NoCode));
    assert_eq!(tree_code(&link("/tree")), Err(TreeError::NotOfficial));
}

#[test]
fn faults_of_trees_in_words() {
    for (error, text) in [
        (TreeError::InvalidUrl, "invalid passive-tree URL"),
        (TreeError::NotOfficial, "use an official Path of Exile passive skill tree URL"),
        (TreeError::NoCode, "passive-tree URL has no encoded tree"),
        (TreeError::NotBase64, "passive-tree data is not valid base64url"),
        (TreeError::Incomplete, "passive-tree data is incomplete"),
        (TreeError::NodesIncomplete, "passive-tree node data is incomplete"),
        (TreeError::MasteriesIncomplete, "passive-tree mastery data is incomplete"),
        (TreeError::UnsupportedVersion(7), "unsupported passive-tree format version 7"),
    ] {
        assert_eq!(error.message(), text);
    }
}

#[test]
fn further_lines_of_a_sheet_only_add_values() {
    let sheet = "Life 100\n 50 Mana";
    let before = parse_character_sheet_text(sheet).unwrap();
    assert!(!before.is_empty());
    for more in ["Life 7\nMana 8\nArmour 9", "", "no label here", "\n\nStrength 5"] {
        let after = parse_character_sheet_text(&format!("{sheet}\n{more}")).unwrap();
        for i in 0..before.len() {
            assert_eq!(after.get(before.key(i)), Some(before.value(i)));
        }
    }
    let after = parse_character_sheet_text(&format!("{sheet}\nLife 7\nArmour 9")).unwrap();
    assert_eq!(after.get("Armour"), Some("9"));
    assert_eq!(after.len(), 3);
}
