//! Builds exported by Path of Building.

use vstd::prelude::*;
use vstd::string::*;
use vstd::utf8::{decode_utf8, encode_utf8, valid_utf8};
use crate::encoding::{
    decode_standard, decode_standard_no_pad, decode_url_safe, decode_url_safe_no_pad, deflate_data,
    read_deflate, read_zlib, standard_bytes, standard_no_pad_bytes, url_safe_bytes,
    url_safe_no_pad_bytes, zlib_data,
};
use crate::number::{decimal, write_u64};
use crate::pob_document::{
    equipment_texts, is_build, parse_xml, read_xml, stat_texts, ReadSoFar,
};
use crate::text::{
    alike, begins_with, first_of, join, joined, name_views, present, remove_whitespace,
    same_ignoring_case, same_text, starts_with, trim, trimmed, trimming_twice_is_trimming_once,
    views, without_white,
};

verus! {

/// How many bytes a document may have: sixteen mebibytes.
pub const MAX_XML_BYTES: u64 = 16777216;

/// A number that Path of Building computed.
#[derive(Debug, Clone, PartialEq)]
pub struct PobStat {
    pub name: String,
    pub value: String,
}

/// What is worn in a slot.
#[derive(Debug, Clone, PartialEq)]
pub struct PobEquipment {
    pub slot: String,
    pub name: String,
}

/// A build.
#[derive(Debug, Clone, PartialEq)]
pub struct PobBuild {
    pub level: Option<u32>,
    pub class_name: String,
    pub ascendancy: String,
    pub main_skill: String,
    pub stats: Vec<PobStat>,
    pub skill_gems: Vec<String>,
    pub equipment: Vec<PobEquipment>,
}

/// Why no build is imported.
#[derive(Debug, Clone, Copy, PartialEq, Eq, Structural)]
pub enum PobError {
    /// Nothing but white space was given.
    Empty,
    /// The file is too large.
    FileTooLarge,
    /// The text is too large.
    TooLarge,
    /// A link was given, which nobody follows.
    WebLink,
    /// The text is not base64.
    NotExportCode,
    /// The decoded bytes do not decompress to a text of the size that is allowed.
    NotDecompressed,
    /// The document is not XML.
    InvalidXml,
    /// An attribute is malformed.
    InvalidAttribute,
    /// The value of an attribute cannot be read.
    UnreadableAttribute,
    /// The text of an item cannot be read.
    InvalidItemText,
    /// The document is XML of another kind.
    NotPathOfBuilding,
}

// ---------------------------------------------------------------- importing

/// Whether a file of this size is read at all.
pub open spec fn size_checked(size: u64) -> Result<(), PobError> {
    if size > MAX_XML_BYTES {
        Err(PobError::FileTooLarge)
    } else {
        Ok(())
    }
}

/// Whether a file of this size is read at all.
pub fn check_file_size(size: u64) -> (r: Result<(), PobError>)
    ensures
        r == size_checked(size),
{
    if size > MAX_XML_BYTES {
        Err(PobError::FileTooLarge)
    } else {
        Ok(())
    }
}

/// The text that decompressed data holds, where it is UTF-8 and not too large.
pub open spec fn text_of_data(data: Seq<u8>) -> Option<Seq<char>> {
    if data.len() <= MAX_XML_BYTES && valid_utf8(data) {
        Some(decode_utf8(data))
    } else {
        None
    }
}

/// The text that decompressed data holds, where it is UTF-8 and not too large.
pub fn decompress_limited(data: Vec<u8>) -> (r: Option<String>)
    ensures
        match r {
            Some(text) => text_of_data(data@) == Some(text@),
            None => text_of_data(data@) is None,
        },
{
    if data.len() as u64 > MAX_XML_BYTES {
        return None;
    }
    match String::from_utf8(data) {
        Ok(text) => Some(text),
        Err(_) => None,
    }
}

/// The bytes that an export code stands for. The alphabet of URLs is tried first, and a code without
/// padding before one with padding.
pub open spec fn export_bytes(code: Seq<char>) -> Option<Seq<u8>> {
    if url_safe_no_pad_bytes(code) is Some {
        url_safe_no_pad_bytes(code)
    } else if url_safe_bytes(code) is Some {
        url_safe_bytes(code)
    } else if standard_no_pad_bytes(code) is Some {
        standard_no_pad_bytes(code)
    } else {
        standard_bytes(code)
    }
}

/// The text that compressed bytes hold: zlib data, or else bare deflate data.
pub open spec fn decompressed(bytes: Seq<u8>) -> Option<Seq<char>> {
    let zlib = match zlib_data(bytes) {
        Some(data) => text_of_data(data),
        None => None,
    };
    if zlib is Some {
        zlib
    } else {
        match deflate_data(bytes) {
            Some(data) => text_of_data(data),
            None => None,
        }
    }
}

/// The document that an export code stands for. White space in the code does not count.
pub open spec fn exported(input: Seq<char>) -> Result<Seq<char>, PobError> {
    match export_bytes(without_white(input)) {
        None => Err(PobError::NotExportCode),
        Some(bytes) => match decompressed(bytes) {
            None => Err(PobError::NotDecompressed),
            Some(xml) => Ok(xml),
        },
    }
}

/// The document that a user's input stands for: the input itself where it is XML, or else the
/// document of an export code.
pub open spec fn document_of(input: Seq<char>) -> Result<Seq<char>, PobError> {
    let input = trimmed(input);
    if input.len() == 0 {
        Err(PobError::Empty)
    } else if encode_utf8(input).len() > MAX_XML_BYTES {
        Err(PobError::TooLarge)
    } else if begins_with(input, "http://"@) || begins_with(input, "https://"@) {
        Err(PobError::WebLink)
    } else if begins_with(input, "<"@) {
        Ok(input)
    } else {
        exported(input)
    }
}

/// What is read of a user's input.
pub open spec fn imported(input: Seq<char>) -> Result<ReadSoFar, PobError> {
    match document_of(input) {
        Err(e) => Err(e),
        Ok(xml) => read_xml(xml),
    }
}

fn decode_code(code: &str) -> (r: Option<Vec<u8>>)
    ensures
        match r {
            Some(bytes) => export_bytes(code@) == Some(bytes@),
            None => export_bytes(code@) is None,
        },
{
    if let Ok(bytes) = decode_url_safe_no_pad(code) {
        return Some(bytes);
    }
    if let Ok(bytes) = decode_url_safe(code) {
        return Some(bytes);
    }
    if let Ok(bytes) = decode_standard_no_pad(code) {
        return Some(bytes);
    }
    match decode_standard(code) {
        Ok(bytes) => Some(bytes),
        Err(_) => None,
    }
}

fn decompress(bytes: &Vec<u8>) -> (r: Option<String>)
    ensures
        match r {
            Some(xml) => decompressed(bytes@) == Some(xml@),
            None => decompressed(bytes@) is None,
        },
{
    if let Ok(data) = read_zlib(bytes, MAX_XML_BYTES + 1) {
        if let Some(xml) = decompress_limited(data) {
            return Some(xml);
        }
    }
    match read_deflate(bytes, MAX_XML_BYTES + 1) {
        Ok(data) => decompress_limited(data),
        Err(_) => None,
    }
}

/// The document that an export code stands for.
pub fn decode_export(input: &str) -> (r: Result<String, PobError>)
    ensures
        match r {
            Ok(xml) => exported(input@) == Ok::<Seq<char>, PobError>(xml@),
            Err(e) => exported(input@) == Err::<Seq<char>, PobError>(e),
        },
{
    let code = remove_whitespace(input);
    match decode_code(&code) {
        None => Err(PobError::NotExportCode),
        Some(bytes) => match decompress(&bytes) {
            None => Err(PobError::NotDecompressed),
            Some(xml) => Ok(xml),
        },
    }
}

/// Imports a build from XML or from an export code.
pub fn import(input: &str) -> (r: Result<PobBuild, PobError>)
    ensures
        match r {
            Ok(b) => imported(input@) is Ok && is_build(b, imported(input@)->Ok_0),
            Err(e) => imported(input@) == Err::<ReadSoFar, PobError>(e),
        },
{
    let input = trim(input);
    if input.is_empty() {
        return Err(PobError::Empty);
    }
    if input.as_bytes().len() as u64 > MAX_XML_BYTES {
        return Err(PobError::TooLarge);
    }
    if starts_with(input, "http://") || starts_with(input, "https://") {
        return Err(PobError::WebLink);
    }
    if starts_with(input, "<") {
        parse_xml(input)
    } else {
        let xml = decode_export(input)?;
        parse_xml(&xml)
    }
}

/// White space around the input does not matter.
pub proof fn surrounding_space_does_not_matter(input: Seq<char>)
    ensures
        imported(trimmed(input)) == imported(input),
{
    trimming_twice_is_trimming_once(input);
}

/// White space inside an export code does not matter.
pub proof fn space_in_a_code_does_not_matter(a: Seq<char>, b: Seq<char>)
    requires
        without_white(a) == without_white(b),
    ensures
        exported(a) == exported(b),
{
}

/// Links are not followed, whatever they lead to.
pub proof fn links_are_refused(input: Seq<char>)
    requires
        begins_with(trimmed(input), "http://"@) || begins_with(trimmed(input), "https://"@),
        encode_utf8(trimmed(input)).len() <= MAX_XML_BYTES,
    ensures
        imported(input) == Err::<ReadSoFar, PobError>(PobError::WebLink),
{
    reveal_strlit("http://");
    reveal_strlit("https://");
}

/// An export code of a document imports as the document itself does: that is, a code whose bytes
/// decompress to the document, as zlib data or else as bare deflate data.
pub proof fn a_code_imports_as_its_document(xml: Seq<char>, code: Seq<char>, bytes: Seq<u8>)
    requires
        trimmed(xml) == xml,
        begins_with(xml, "<"@),
        encode_utf8(xml).len() <= MAX_XML_BYTES,
        trimmed(code).len() > 0,
        encode_utf8(trimmed(code)).len() <= MAX_XML_BYTES,
        !begins_with(trimmed(code), "http://"@),
        !begins_with(trimmed(code), "https://"@),
        !begins_with(trimmed(code), "<"@),
        export_bytes(without_white(trimmed(code))) == Some(bytes),
        zlib_data(bytes) == Some(encode_utf8(xml)) || zlib_data(bytes) is None && deflate_data(bytes)
            == Some(encode_utf8(xml)),
    ensures
        document_of(code) == Ok::<Seq<char>, PobError>(xml),
        imported(code) == imported(xml),
{
    reveal_strlit("<");
    reveal_strlit("http://");
    reveal_strlit("https://");
    vstd::utf8::encode_utf8_valid_utf8(xml);
    vstd::utf8::encode_utf8_decode_utf8(xml);
    assert(xml[0] == "<"@[0]);
    if begins_with(xml, "http://"@) {
        assert(xml[0] == "http://"@[0]);
    }
    if begins_with(xml, "https://"@) {
        assert(xml[0] == "https://"@[0]);
    }
}

// ---------------------------------------------------------------- showing

/// The value of the first statistic with the name, whatever the case of its letters.
pub open spec fn value_of(stats: Seq<(Seq<char>, Seq<char>)>, name: Seq<char>) -> Option<Seq<char>>
    decreases stats.len(),
{
    if stats.len() == 0 {
        None
    } else if alike(stats[0].0, name) {
        Some(stats[0].1)
    } else {
        value_of(stats.skip(1), name)
    }
}

/// The value of the first of the names that a statistic has.
pub open spec fn first_value(
    stats: Seq<(Seq<char>, Seq<char>)>,
    names: Seq<Seq<char>>,
) -> Option<Seq<char>>
    decreases names.len(),
{
    if names.len() == 0 {
        None
    } else if value_of(stats, names[0]) is Some {
        value_of(stats, names[0])
    } else {
        first_value(stats, names.skip(1))
    }
}

fn find_value<'a>(stats: &'a Vec<PobStat>, name: &str) -> (r: Option<&'a str>)
    ensures
        match r {
            Some(value) => value_of(stat_texts(stats@), name@) == Some(value@),
            None => value_of(stat_texts(stats@), name@) is None,
        },
{
    let ghost all = stat_texts(stats@);
    let mut i: usize = 0;
    assert(all.skip(0) =~= all);
    while i < stats.len()
        invariant
            i <= stats@.len(),
            all == stat_texts(stats@),
            value_of(all.skip(i as int), name@) == value_of(all, name@),
        decreases stats@.len() - i,
    {
        proof {
            assert(all.skip(i as int)[0] == all[i as int]);
            assert(all.skip(i as int).skip(1) =~= all.skip(i + 1));
        }
        if same_ignoring_case(&stats[i].name, name) {
            return Some(stats[i].value.as_str());
        }
        i = i + 1;
    }
    None
}

/// Whether a statistic of this name stands in a summary.
pub open spec fn is_headline(name: Seq<char>) -> bool {
    ||| name == "Life"@
    ||| name == "LifeUnreserved"@
    ||| name == "EnergyShield"@
    ||| name == "Mana"@
    ||| name == "Armour"@
    ||| name == "Evasion"@
    ||| name == "Ward"@
    ||| name == "FireResist"@
    ||| name == "ColdResist"@
    ||| name == "LightningResist"@
    ||| name == "ChaosResist"@
    ||| name == "FullDPS"@
    ||| name == "CombinedDPS"@
    ||| name == "TotalDPS"@
    ||| name == "TotalDot"@
    ||| name == "Speed"@
    ||| name == "CritChance"@
}

/// Whether a statistic of this name stands in a summary.
pub fn is_headline_stat(name: &str) -> (r: bool)
    ensures
        r == is_headline(name@),
{
    same_text(name, "Life") || same_text(name, "LifeUnreserved") || same_text(name, "EnergyShield")
        || same_text(name, "Mana") || same_text(name, "Armour") || same_text(name, "Evasion")
        || same_text(name, "Ward") || same_text(name, "FireResist") || same_text(name, "ColdResist")
        || same_text(name, "LightningResist") || same_text(name, "ChaosResist") || same_text(
        name,
        "FullDPS",
    ) || same_text(name, "CombinedDPS") || same_text(name, "TotalDPS") || same_text(
        name,
        "TotalDot",
    ) || same_text(name, "Speed") || same_text(name, "CritChance")
}

/// The headline statistics, each as its name and its value with an equals sign between.
pub open spec fn headlines(stats: Seq<(Seq<char>, Seq<char>)>) -> Seq<Seq<char>>
    decreases stats.len(),
{
    if stats.len() == 0 {
        Seq::empty()
    } else {
        let before = headlines(stats.drop_last());
        if is_headline(stats.last().0) {
            before.push(stats.last().0 + "="@ + stats.last().1)
        } else {
            before
        }
    }
}

/// How many headline statistics a summary holds at most.
pub const MAX_HEADLINES: usize = 16;

fn headline_texts(stats: &Vec<PobStat>) -> (r: Vec<String>)
    ensures
        views(r@) == first_of(headlines(stat_texts(stats@)), MAX_HEADLINES as int),
{
    let ghost all = stat_texts(stats@);
    let mut out: Vec<String> = Vec::new();
    let mut i: usize = 0;
    assert(views(out@) =~= Seq::empty());
    while i < stats.len()
        invariant
            i <= stats@.len(),
            all == stat_texts(stats@),
            views(out@) == first_of(headlines(all.take(i as int)), MAX_HEADLINES as int),
        decreases stats@.len() - i,
    {
        let ghost before = views(out@);
        let ghost known = headlines(all.take(i as int));
        proof {
            assert(all.take(i + 1).drop_last() =~= all.take(i as int));
            assert(all.take(i + 1).last() == all[i as int]);
        }
        if is_headline_stat(&stats[i].name) {
            if out.len() < MAX_HEADLINES {
                let mut text = stats[i].name.clone();
                text.append("=");
                text.append(&stats[i].value);
                out.push(text);
                assert(views(out@) =~= before.push(text@));
            } else {
                proof {
                    let now = headlines(all.take(i + 1));
                    assert(first_of(now, MAX_HEADLINES as int) =~= first_of(
                        known,
                        MAX_HEADLINES as int,
                    ));
                }
            }
        }
        i = i + 1;
    }
    assert(all.take(i as int) =~= all);
    out
}

/// A text, or `unknown` in place of an empty one.
pub open spec fn or_unknown(value: Seq<char>) -> Seq<char> {
    if value.len() == 0 {
        "unknown"@
    } else {
        value
    }
}

/// A text, or `unknown` in place of an empty one.
pub fn value_or_unknown<'a>(value: &'a str) -> (r: &'a str)
    ensures
        r@ == or_unknown(value@),
{
    if value.is_empty() {
        "unknown"
    } else {
        value
    }
}

/// Each slot with what it holds.
pub open spec fn slot_texts(equipment: Seq<(Seq<char>, Seq<char>)>) -> Seq<Seq<char>> {
    equipment.map_values(|e: (Seq<char>, Seq<char>)| e.0 + ": "@ + e.1)
}

fn write_slots(equipment: &Vec<PobEquipment>) -> (r: Vec<String>)
    ensures
        views(r@) == slot_texts(equipment_texts(equipment@)),
{
    let ghost all = slot_texts(equipment_texts(equipment@));
    let mut out: Vec<String> = Vec::new();
    let mut i: usize = 0;
    while i < equipment.len()
        invariant
            i <= equipment@.len(),
            all == slot_texts(equipment_texts(equipment@)),
            views(out@) == all.take(i as int),
        decreases equipment@.len() - i,
    {
        let mut text = equipment[i].slot.clone();
        text.append(": ");
        text.append(&equipment[i].name);
        let ghost before = views(out@);
        out.push(text);
        proof {
            assert(views(out@) =~= before.push(text@));
            assert(equipment_texts(equipment@)[i as int] == (
                equipment@[i as int].slot@,
                equipment@[i as int].name@,
            ));
            assert(all.take(i + 1) =~= all.take(i as int).push(text@));
        }
        i = i + 1;
    }
    assert(all.take(i as int) =~= all);
    out
}

impl PobBuild {
    /// Level, class and ascendancy, as far as they are known.
    pub open spec fn identity(self) -> Seq<char> {
        let level = match self.level {
            Some(level) => Some("Level "@ + decimal(level as nat)),
            None => None,
        };
        let class_name = if self.class_name@.len() > 0 {
            Some(self.class_name@)
        } else {
            None
        };
        let ascendancy = if self.ascendancy@.len() > 0 {
            Some(self.ascendancy@)
        } else {
            None
        };
        joined(present(seq![level, class_name, ascendancy]), " "@)
    }

    /// The build in a few lines.
    pub open spec fn summary_text(self) -> Seq<char> {
        "Character: "@ + self.identity() + "\nMain skill: "@ + or_unknown(self.main_skill@)
            + "\nStats: "@ + joined(
            first_of(headlines(stat_texts(self.stats@)), MAX_HEADLINES as int),
            ", "@,
        ) + "\nSkills: "@ + joined(views(self.skill_gems@), ", "@) + "\nEquipment: "@ + joined(
            slot_texts(equipment_texts(self.equipment@)),
            ", "@,
        )
    }

    /// The value of the first of the names that a statistic has, whatever the case of its letters.
    pub fn stat(&self, names: &[&str]) -> (r: Option<&str>)
        ensures
            match r {
                Some(value) => first_value(stat_texts(self.stats@), name_views(names@)) == Some(
                    value@,
                ),
                None => first_value(stat_texts(self.stats@), name_views(names@)) is None,
            },
    {
        let ghost all = name_views(names@);
        let mut i: usize = 0;
        assert(all.skip(0) =~= all);
        while i < names.len()
            invariant
                i <= names@.len(),
                all == name_views(names@),
                first_value(stat_texts(self.stats@), all.skip(i as int)) == first_value(
                    stat_texts(self.stats@),
                    all,
                ),
            decreases names@.len() - i,
        {
            proof {
                assert(all.skip(i as int)[0] == all[i as int]);
                assert(all.skip(i as int).skip(1) =~= all.skip(i + 1));
            }
            if let Some(value) = find_value(&self.stats, names[i]) {
                return Some(value);
            }
            i = i + 1;
        }
        None
    }

    fn write_identity(&self) -> (r: String)
        ensures
            r@ == self.identity(),
    {
        let mut parts: Vec<String> = Vec::new();
        let ghost level: Option<Seq<char>> = match self.level {
            Some(level) => Some("Level "@ + decimal(level as nat)),
            None => None,
        };
        let ghost class_name = if self.class_name@.len() > 0 {
            Some(self.class_name@)
        } else {
            None
        };
        let ghost ascendancy = if self.ascendancy@.len() > 0 {
            Some(self.ascendancy@)
        } else {
            None
        };
        assert(views(parts@) =~= present(seq![]));
        if let Some(level) = self.level {
            let mut text = "Level ".to_string();
            text.append(&write_u64(level as u64));
            parts.push(text);
        }
        proof {
            assert(seq![level].drop_last() =~= seq![]);
            assert(views(parts@) =~= present(seq![level]));
        }
        if !self.class_name.as_str().is_empty() {
            parts.push(self.class_name.clone());
        }
        proof {
            assert(seq![level, class_name].drop_last() =~= seq![level]);
            assert(views(parts@) =~= present(seq![level, class_name]));
        }
        if !self.ascendancy.as_str().is_empty() {
            parts.push(self.ascendancy.clone());
        }
        proof {
            assert(seq![level, class_name, ascendancy].drop_last() =~= seq![level, class_name]);
            assert(views(parts@) =~= present(seq![level, class_name, ascendancy]));
        }
        join(&parts, " ")
    }

    /// The build in a few lines.
    pub fn summary(&self) -> (r: String)
        ensures
            r@ == self.summary_text(),
    {
        let mut out = "Character: ".to_string();
        out.append(&self.write_identity());
        out.append("\nMain skill: ");
        out.append(value_or_unknown(&self.main_skill));
        out.append("\nStats: ");
        out.append(&join(&headline_texts(&self.stats), ", "));
        out.append("\nSkills: ");
        out.append(&join(&self.skill_gems, ", "));
        out.append("\nEquipment: ");
        out.append(&join(&write_slots(&self.equipment), ", "));
        out
    }
}

impl Default for PobBuild {
    fn default() -> (r: Self)
        ensures
            r.level is None,
            r.class_name@.len() == 0,
            r.ascendancy@.len() == 0,
            r.main_skill@.len() == 0,
            r.stats@.len() == 0,
            r.skill_gems@.len() == 0,
            r.equipment@.len() == 0,
    {
        PobBuild {
            level: None,
            class_name: String::new(),
            ascendancy: String::new(),
            main_skill: String::new(),
            stats: Vec::new(),
            skill_gems: Vec::new(),
            equipment: Vec::new(),
        }
    }
}

impl PobError {
    /// What a user is told.
    pub open spec fn message_text(self) -> Seq<char> {
        match self {
            PobError::Empty => "paste a Path of Building export code or select an XML file"@,
            PobError::FileTooLarge => "Path of Building file is larger than 16 MiB"@,
            PobError::TooLarge => "Path of Building input is larger than 16 MiB"@,
            PobError::WebLink => "web build links are not downloaded; paste the Path of Building export code instead"@,
            PobError::NotExportCode => "the pasted text is not a valid Path of Building export code"@,
            PobError::NotDecompressed => "the export code could not be decompressed"@,
            PobError::InvalidXml => "invalid Path of Building XML"@,
            PobError::InvalidAttribute => "invalid XML attribute"@,
            PobError::UnreadableAttribute => "unreadable XML attribute"@,
            PobError::InvalidItemText => "invalid item text"@,
            PobError::NotPathOfBuilding => "XML is not a Path of Building document"@,
        }
    }

    /// What a user is told.
    pub fn message(&self) -> (r: &'static str)
        ensures
            r@ == self.message_text(),
    {
        match self {
            PobError::Empty => "paste a Path of Building export code or select an XML file",
            PobError::FileTooLarge => "Path of Building file is larger than 16 MiB",
            PobError::TooLarge => "Path of Building input is larger than 16 MiB",
            PobError::WebLink => "web build links are not downloaded; paste the Path of Building export code instead",
            PobError::NotExportCode => "the pasted text is not a valid Path of Building export code",
            PobError::NotDecompressed => "the export code could not be decompressed",
            PobError::InvalidXml => "invalid Path of Building XML",
            PobError::InvalidAttribute => "invalid XML attribute",
            PobError::UnreadableAttribute => "unreadable XML attribute",
            PobError::InvalidItemText => "invalid item text",
            PobError::NotPathOfBuilding => "XML is not a Path of Building document",
        }
    }
}

} // verus!
