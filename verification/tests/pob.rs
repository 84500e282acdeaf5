use base64::{engine::general_purpose, Engine as _};
use exile_companion::pob::{
    check_file_size, decode_export, decompress_limited, import, is_headline_stat, PobBuild,
    PobEquipment, PobError, PobStat, MAX_XML_BYTES,
};
use exile_companion::pob_document::{
    build_from_events, is_support_gem, item_display_name, item_set_is_active, skill_set_is_active,
};
use exile_companion::xml::{read_document, XmlAttribute, XmlEvent};
use flate2::{
    write::{DeflateEncoder, ZlibEncoder},
    Compression,
};
use std::io::Write;

const SAMPLE: &str = r#"<?xml version="1.0" encoding="UTF-8"?>
<PathOfBuilding>
  <Build level="94" className="Witch" ascendClassName="Elementalist" mainSocketGroup="1">
    <PlayerStat stat="Life" value="4123"/>
    <PlayerStat stat="FullDPS" value="1250000.5"/>
  </Build>
  <Skills><Skill mainActiveSkill="2"><Gem enabled="true" nameSpec="Arc"/><Gem enabled="true" nameSpec="Added Lightning Damage Support"/><Gem enabled="true" nameSpec="Ice Nova"/><Gem enabled="false" nameSpec="Clarity"/></Skill></Skills>
  <Items activeItemSet="1">
    <Item id="7">Rarity: UNIQUE
Storm Call
Prophecy Wand
Unique ID: abc</Item>
    <ItemSet id="1"><Slot name="Weapon 1" itemId="7"/></ItemSet>
  </Items>
</PathOfBuilding>"#;

#[test]
fn imports_raw_xml() {
    let build = import(SAMPLE).unwrap();
    assert_eq!(build.level, Some(94));
    assert_eq!(build.ascendancy, "Elementalist");
    assert_eq!(build.main_skill, "Ice Nova");
    assert_eq!(build.stat(&["Life"]), Some("4123"));
    assert_eq!(
        build.skill_gems,
        ["Added Lightning Damage Support", "Arc", "Ice Nova"]
    );
    assert_eq!(
        build.equipment,
        [PobEquipment {
            slot: "Weapon 1".into(),
            name: "Storm Call — Prophecy Wand".into()
        }]
    );
}

#[test]
fn imports_encoded_export() {
    let mut encoder = ZlibEncoder::new(Vec::new(), Compression::default());
    encoder.write_all(SAMPLE.as_bytes()).unwrap();
    let code = general_purpose::URL_SAFE_NO_PAD.encode(encoder.finish().unwrap());
    assert_eq!(import(&code).unwrap().level, Some(94));
}

#[test]
fn rejects_links_and_unrelated_xml() {
    assert!(import("https://pobb.in/example").is_err());
    assert!(import("<document />").is_err());
}

fn zlib(data: &[u8]) -> Vec<u8> {
    let mut encoder = ZlibEncoder::new(Vec::new(), Compression::default());
    encoder.write_all(data).unwrap();
    encoder.finish().unwrap()
}

fn deflate(data: &[u8]) -> Vec<u8> {
    let mut encoder = DeflateEncoder::new(Vec::new(), Compression::default());
    encoder.write_all(data).unwrap();
    encoder.finish().unwrap()
}

#[test]
fn a_code_imports_as_the_document_does() {
    let expected = import(SAMPLE).unwrap();
    for compressed in [zlib(SAMPLE.as_bytes()), deflate(SAMPLE.as_bytes())] {
        for code in [
            general_purpose::URL_SAFE_NO_PAD.encode(&compressed),
            general_purpose::URL_SAFE.encode(&compressed),
            general_purpose::STANDARD_NO_PAD.encode(&compressed),
            general_purpose::STANDARD.encode(&compressed),
        ] {
            assert_eq!(import(&code), Ok(expected.clone()));
            assert_eq!(decode_export(&code).unwrap(), SAMPLE);
            let spaced: String = code.chars().flat_map(|c| [c, '\n', '\u{3000}']).collect();
            assert_eq!(import(&format!("\t{spaced} ")), Ok(expected.clone()));
        }
    }
}

#[test]
fn both_alphabets_are_read() {
    let bytes = vec![0xfb, 0xff, 0xbf];
    assert_eq!(general_purpose::URL_SAFE.encode(&bytes), "-_-_");
    assert_eq!(general_purpose::STANDARD.encode(&bytes), "+/+/");
    assert_eq!(decode_export("-_-_"), Err(PobError::NotDecompressed));
    assert_eq!(decode_export("+/+/"), Err(PobError::NotDecompressed));
    assert_eq!(decode_export("-/-/"), Err(PobError::NotExportCode));
}

#[test]
fn each_error_of_an_import() {
    assert_eq!(import(" \n"), Err(PobError::Empty));
    assert_eq!(import("http://x"), Err(PobError::WebLink));
    assert_eq!(import("  https://x"), Err(PobError::WebLink));
    assert_eq!(import("ftp://x"), Err(PobError::NotExportCode));
    assert_eq!(import("AAAA"), Err(PobError::NotDecompressed));
    assert_eq!(import("<document />"), Err(PobError::NotPathOfBuilding));
    assert_eq!(import("<a></b>"), Err(PobError::InvalidXml));
    assert_eq!(import("<PathOfBuilding><Build level></PathOfBuilding>"), Err(PobError::InvalidAttribute));
    assert_eq!(
        import("<PathOfBuilding><Build level=\"&nothing;\"></Build></PathOfBuilding>"),
        Err(PobError::UnreadableAttribute)
    );
    let code = general_purpose::STANDARD.encode(zlib(&[0xff, 0xfe]));
    assert_eq!(import(&code), Err(PobError::NotDecompressed));
    assert_eq!(check_file_size(MAX_XML_BYTES), Ok(()));
    assert_eq!(check_file_size(MAX_XML_BYTES + 1), Err(PobError::FileTooLarge));
}

#[test]
fn large_inputs_are_refused() {
    let size = MAX_XML_BYTES as usize;
    assert_eq!(size, 16 * 1024 * 1024);
    let data = vec![b'a'; size + 1];
    let code = general_purpose::STANDARD.encode(zlib(&data));
    assert_eq!(decode_export(&code), Err(PobError::NotDecompressed));
    assert_eq!(decompress_limited(data), None);
    assert_eq!(import(&"a".repeat(size + 1)), Err(PobError::TooLarge));
    assert_ne!(import(&format!("<{}", "a".repeat(size - 1))), Err(PobError::TooLarge));
    assert_eq!(decompress_limited(b"ok".to_vec()), Some("ok".to_string()));
    assert_eq!(decompress_limited(vec![0xc3]), None);
}

#[test]
fn errors_in_words() {
    for (error, text) in [
        (PobError::Empty, "paste a Path of Building export code or select an XML file"),
        (PobError::FileTooLarge, "Path of Building file is larger than 16 MiB"),
        (PobError::TooLarge, "Path of Building input is larger than 16 MiB"),
        (PobError::WebLink, "web build links are not downloaded; paste the Path of Building export code instead"),
        (PobError::NotExportCode, "the pasted text is not a valid Path of Building export code"),
        (PobError::NotDecompressed, "the export code could not be decompressed"),
        (PobError::InvalidXml, "invalid Path of Building XML"),
        (PobError::InvalidAttribute, "invalid XML attribute"),
        (PobError::UnreadableAttribute, "unreadable XML attribute"),
        (PobError::InvalidItemText, "invalid item text"),
        (PobError::NotPathOfBuilding, "XML is not a Path of Building document"),
    ] {
        assert_eq!(error.message(), text);
    }
}

// ---------------------------------------------------------------- documents

fn open(name: &str, attributes: &[(&str, &str)]) -> XmlEvent {
    XmlEvent::Open {
        name: name.to_string(),
        empty: false,
        attributes: attributes
            .iter()
            .map(|(key, value)| {
                Some(XmlAttribute { key: key.to_string(), value: Some(value.to_string()) })
            })
            .collect(),
    }
}

fn leaf(name: &str, attributes: &[(&str, &str)]) -> XmlEvent {
    match open(name, attributes) {
        XmlEvent::Open { name, attributes, .. } => XmlEvent::Open { name, empty: true, attributes },
        other => other,
    }
}

fn close(name: &str) -> XmlEvent {
    XmlEvent::Close(name.to_string())
}

fn text(content: &str) -> XmlEvent {
    XmlEvent::Text(Some(content.to_string()))
}

fn built(events: Vec<XmlEvent>) -> Result<PobBuild, PobError> {
    let mut all = vec![open("PathOfBuilding", &[])];
    all.extend(events);
    build_from_events(&all, true)
}

#[test]
fn a_document_must_be_complete_and_of_the_right_kind() {
    assert_eq!(build_from_events(&vec![], true), Err(PobError::NotPathOfBuilding));
    assert_eq!(build_from_events(&vec![], false), Err(PobError::InvalidXml));
    assert_eq!(build_from_events(&vec![leaf("PathOfBuilding", &[])], true), Err(PobError::NotPathOfBuilding));
    assert_eq!(built(vec![]), Ok(PobBuild::default()));
    assert_eq!(built(vec![XmlEvent::Other, XmlEvent::Text(None)]), Ok(PobBuild::default()));
}

#[test]
fn build_attributes_are_read() {
    let build = built(vec![open(
        "Build",
        &[("level", "x"), ("className", "C"), ("ascendClassName", "A"), ("mainSkill", "M"), ("mainSocketGroup", "2")],
    )])
    .unwrap();
    assert_eq!(build.level, None);
    assert_eq!((build.class_name.as_str(), build.ascendancy.as_str(), build.main_skill.as_str()), ("C", "A", "M"));
    assert_eq!(built(vec![open("Build", &[("level", "+7")])]).unwrap().level, Some(7));
    assert_eq!(built(vec![leaf("Build", &[("level", "7")])]).unwrap().level, None);
}

#[test]
fn only_the_main_group_names_the_main_skill() {
    let events = |main: &str, enabled: &str, active: &str| {
        vec![
            open("Build", &[("mainSocketGroup", main)]),
            open("Skill", &[]),
            leaf("Gem", &[("nameSpec", "One")]),
            close("Skill"),
            open("Skill", &[("enabled", enabled), ("mainActiveSkill", active)]),
            leaf("Gem", &[("nameSpec", "Support: X")]),
            open("Gem", &[("skillId", "Two")]),
            leaf("Gem", &[("nameSpec", ""), ("skillId", "Skipped")]),
            leaf("Gem", &[("nameSpec", "Three")]),
            close("Skill"),
        ]
    };
    assert_eq!(built(events("2", "true", "2")).unwrap().main_skill, "Three");
    assert_eq!(built(events("2", "true", "0")).unwrap().main_skill, "Two");
    assert_eq!(built(events("2", "true", "9")).unwrap().main_skill, "Two");
    assert_eq!(built(events("2", "false", "2")).unwrap().main_skill, "");
    assert_eq!(built(events("x", "true", "2")).unwrap().main_skill, "One");
    assert_eq!(
        built(events("2", "true", "2")).unwrap().skill_gems,
        ["One", "Support: X", "Three", "Two"]
    );
}

#[test]
fn other_sets_are_left_out() {
    let build = built(vec![
        open("Skills", &[("activeSkillSet", "2")]),
        open("SkillSet", &[("id", "1")]),
        open("Skill", &[]),
        leaf("Gem", &[("nameSpec", "Old")]),
        close("Skill"),
        close("SkillSet"),
        open("SkillSet", &[("id", "2")]),
        open("Skill", &[]),
        leaf("Gem", &[("nameSpec", "New")]),
        leaf("Gem", &[("nameSpec", "New")]),
        close("Skill"),
        close("SkillSet"),
        open("Items", &[("activeItemSet", "2")]),
        open("Item", &[("id", "7")]),
        text("Rarity: MAGIC\n"),
        text("Ring"),
        close("Item"),
        open("Item", &[("id", "8")]),
        close("Item"),
        open("ItemSet", &[("id", "1")]),
        leaf("Slot", &[("name", "A"), ("itemId", "7")]),
        close("ItemSet"),
        open("ItemSet", &[("id", "2")]),
        leaf("Slot", &[("name", "C"), ("itemId", "7")]),
        open("Slot", &[("name", "B"), ("itemId", "7")]),
        leaf("Slot", &[("name", "D"), ("itemId", "0")]),
        leaf("Slot", &[("name", "E"), ("itemId", "8")]),
        leaf("Slot", &[("name", "F"), ("itemId", "9")]),
        close("ItemSet"),
    ])
    .unwrap();
    assert_eq!(build.skill_gems, ["New"]);
    assert_eq!(build.main_skill, "New");
    let worn: Vec<(&str, &str)> =
        build.equipment.iter().map(|e| (e.slot.as_str(), e.name.as_str())).collect();
    assert_eq!(worn, [("B", "Ring"), ("C", "Ring")]);
}

#[test]
fn faults_of_events_are_told() {
    let broken = |attribute: Option<XmlAttribute>| {
        built(vec![XmlEvent::Open {
            name: "Build".to_string(),
            empty: false,
            attributes: vec![attribute],
        }])
    };
    assert_eq!(broken(None), Err(PobError::InvalidAttribute));
    assert_eq!(
        broken(Some(XmlAttribute { key: "level".to_string(), value: None })),
        Err(PobError::UnreadableAttribute)
    );
    assert!(broken(Some(XmlAttribute { key: "other".to_string(), value: None })).is_ok());
    assert_eq!(
        built(vec![open("Item", &[("id", "1")]), XmlEvent::Text(None)]),
        Err(PobError::InvalidItemText)
    );
}

#[test]
fn character_data_is_text() {
    let build = import("<PathOfBuilding><Item id='1'>Rarity: RARE\n<![CDATA[A & B]]>\nC</Item><Slot name='x &amp; y' itemId='1'/></PathOfBuilding>").unwrap();
    assert_eq!(build.equipment, [PobEquipment { slot: "x & y".into(), name: "A & B — C".into() }]);
}

#[test]
fn a_document_is_a_list_of_events() {
    let document = read_document("<a x='1'>t<b/></a>");
    assert!(document.complete);
    assert_eq!(
        document.events,
        vec![open("a", &[("x", "1")]), text("t"), leaf("b", &[]), close("a")]
    );
    assert!(!read_document("<a><").complete);
}

#[test]
fn items_are_shown_by_name() {
    assert_eq!(item_display_name(""), "");
    assert_eq!(item_display_name("\n Just a name \nx"), "Just a name");
    assert_eq!(item_display_name("Rarity: RARE\nA\nB\nC"), "A — B");
    assert_eq!(item_display_name("Rarity: RELIC\nA"), "");
    assert_eq!(item_display_name("Rarity: NORMAL\n\nA\nB"), "A");
    assert_eq!(item_display_name("Rarity: MAGIC"), "");
    assert_eq!(item_display_name("Rarity: rare\nA\nB"), "A");
}

#[test]
fn support_gems_and_sets() {
    assert!(is_support_gem("Added Fire Damage Support"));
    assert!(is_support_gem("SupportAddedFire"));
    assert!(!is_support_gem("Supreme Arc"));
    assert!(!is_support_gem("LifeSupport"));
    assert!(skill_set_is_active("", "1") && skill_set_is_active("1", "") && skill_set_is_active("1", "1"));
    assert!(!skill_set_is_active("1", "2"));
    assert!(item_set_is_active("", "1") && !item_set_is_active("1", "2"));
}

// ---------------------------------------------------------------- showing

fn stat(name: &str, value: &str) -> PobStat {
    PobStat { name: name.to_string(), value: value.to_string() }
}

#[test]
fn the_first_statistic_of_a_name_counts() {
    let build = PobBuild {
        stats: vec![stat("Life", "1"), stat("life", "2"), stat("Mana", "3")],
        ..Default::default()
    };
    assert_eq!(build.stat(&["LIFE"]), Some("1"));
    assert_eq!(build.stat(&["None", "mana", "Life"]), Some("3"));
    assert_eq!(build.stat(&["None"]), None);
    assert_eq!(build.stat(&[]), None);
}

#[test]
fn a_build_is_summed_up() {
    assert_eq!(
        PobBuild::default().summary(),
        "Character: \nMain skill: unknown\nStats: \nSkills: \nEquipment: "
    );
    assert_eq!(
        import(SAMPLE).unwrap().summary(),
        "Character: Level 94 Witch Elementalist\nMain skill: Ice Nova\nStats: Life=4123, FullDPS=1250000.5\nSkills: Added Lightning Damage Support, Arc, Ice Nova\nEquipment: Weapon 1: Storm Call — Prophecy Wand"
    );
    let mut build = PobBuild { ascendancy: "A".to_string(), ..Default::default() };
    for i in 0..20 {
        build.stats.push(stat("Life", &i.to_string()));
        build.stats.push(stat("Other", "x"));
    }
    let summary = build.summary();
    assert!(summary.starts_with("Character: A\n"));
    assert!(summary.contains("Life=15\n"));
    assert!(!summary.contains("Life=16"));
    assert!(!summary.contains("Other"));
}

#[test]
fn headline_statistics() {
    for name in [
        "Life", "LifeUnreserved", "EnergyShield", "Mana", "Armour", "Evasion", "Ward", "FireResist",
        "ColdResist", "LightningResist", "ChaosResist", "FullDPS", "CombinedDPS", "TotalDPS",
        "TotalDot", "Speed", "CritChance",
    ] {
        assert!(is_headline_stat(name));
    }
    assert!(!is_headline_stat("life"));
    assert!(!is_headline_stat(""));
}
