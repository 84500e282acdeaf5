//! Which inputs are imported as builds, and how builds are shown.

use vstd::prelude::*;
use vstd::string::*;
use vstd::utf8::{decode_utf8, encode_utf8, valid_utf8};
use crate::encoding::{
    deflate_data, standard_bytes, standard_no_pad_bytes, url_safe_bytes, url_safe_no_pad_bytes,
    zlib_data,
};
use crate::laws::texts::a_text_begins_with_its_front;
use crate::number::decimal;
use crate::pob::{
    decompressed, exported, first_value, headlines, imported, size_checked, slot_texts, value_of,
    PobBuild, PobError, MAX_HEADLINES, MAX_XML_BYTES,
};
use crate::pob_document::{equipment_texts, read_xml, stat_texts, ReadSoFar};
use crate::text::{alike, begins_with, first_of, joined, present, trimmed, views, without_white};

verus! {

// ---------------------------------------------------------------- inputs

/// A document of at most sixteen mebibytes is imported as what is read of it, with or without white
/// space around it.
pub proof fn documents_are_imported_as_they_are(input: Seq<char>, rest: Seq<char>)
    requires
        trimmed(input) == "<"@ + rest,
        encode_utf8(trimmed(input)).len() <= 16 * 1024 * 1024,
    ensures
        imported(input) == read_xml(trimmed(input)),
{
    reveal_strlit("<");
    reveal_strlit("http://");
    reveal_strlit("https://");
    a_text_begins_with_its_front("<"@, rest);
    let s = trimmed(input);
    assert(s[0] == '<');
    if begins_with(s, "http://"@) {
        assert(s.subrange(0, "http://"@.len() as int)[0] == s[0]);
    }
    if begins_with(s, "https://"@) {
        assert(s.subrange(0, "https://"@.len() as int)[0] == s[0]);
    }
}

/// Nothing, more than sixteen mebibytes, and links are refused, each with its own error.
pub proof fn some_inputs_are_refused(input: Seq<char>, rest: Seq<char>)
    ensures
        trimmed(input).len() == 0 ==> imported(input) == Err::<ReadSoFar, PobError>(PobError::Empty),
        trimmed(input).len() > 0 && encode_utf8(trimmed(input)).len() > 16 * 1024 * 1024 ==> imported(
            input,
        ) == Err::<ReadSoFar, PobError>(PobError::TooLarge),
        encode_utf8(trimmed(input)).len() <= 16 * 1024 * 1024 && (trimmed(input) == "http://"@ + rest
            || trimmed(input) == "https://"@ + rest) ==> imported(input) == Err::<
            ReadSoFar,
            PobError,
        >(PobError::WebLink),
{
    reveal_strlit("http://");
    reveal_strlit("https://");
    a_text_begins_with_its_front("http://"@, rest);
    a_text_begins_with_its_front("https://"@, rest);
}

/// Any other input is an export code: what it stands for is imported.
pub proof fn codes_are_imported_as_their_documents(input: Seq<char>)
    requires
        trimmed(input).len() > 0,
        encode_utf8(trimmed(input)).len() <= 16 * 1024 * 1024,
        !begins_with(trimmed(input), "http://"@),
        !begins_with(trimmed(input), "https://"@),
        !begins_with(trimmed(input), "<"@),
    ensures
        imported(input) == match exported(trimmed(input)) {
            Ok(xml) => read_xml(xml),
            Err(e) => Err::<ReadSoFar, PobError>(e),
        },
{
}

/// A code is read without its white space, in the first of four forms that reads it: the alphabet of
/// links before the standard one, and without padding before with padding. What no form reads is no
/// code.
pub proof fn codes_are_read_in_four_forms(input: Seq<char>, bytes: Seq<u8>)
    ensures
        ({
            let code = without_white(input);
            let a = url_safe_no_pad_bytes(code);
            let b = url_safe_bytes(code);
            let c = standard_no_pad_bytes(code);
            let d = standard_bytes(code);
            let told = |bytes: Seq<u8>|
                match decompressed(bytes) {
                    Some(xml) => Ok::<Seq<char>, PobError>(xml),
                    None => Err::<Seq<char>, PobError>(PobError::NotDecompressed),
                };
            &&& a == Some(bytes) ==> exported(input) == told(bytes)
            &&& a is None && b == Some(bytes) ==> exported(input) == told(bytes)
            &&& a is None && b is None && c == Some(bytes) ==> exported(input) == told(bytes)
            &&& a is None && b is None && c is None && d == Some(bytes) ==> exported(input) == told(
                bytes,
            )
            &&& a is None && b is None && c is None && d is None ==> exported(input) == Err::<
                Seq<char>,
                PobError,
            >(PobError::NotExportCode)
        }),
{
}

/// Whether data is a text of at most sixteen mebibytes.
pub open spec fn is_text(data: Option<Seq<u8>>) -> bool {
    data is Some && data->0.len() <= 16 * 1024 * 1024 && valid_utf8(data->0)
}

/// Compressed bytes hold the text of their zlib data; where that is none, the text of their deflate
/// data; and else nothing.
pub proof fn zlib_goes_before_deflate(bytes: Seq<u8>)
    ensures
        is_text(zlib_data(bytes)) ==> decompressed(bytes) == Some(decode_utf8(zlib_data(bytes)->0)),
        !is_text(zlib_data(bytes)) && is_text(deflate_data(bytes)) ==> decompressed(bytes) == Some(
            decode_utf8(deflate_data(bytes)->0),
        ),
        !is_text(zlib_data(bytes)) && !is_text(deflate_data(bytes)) ==> decompressed(bytes) is None,
{
}

/// A file of more than sixteen mebibytes is not read.
pub proof fn large_files_are_not_read(size: u64)
    ensures
        size <= 16 * 1024 * 1024 ==> size_checked(size) is Ok,
        size > 16 * 1024 * 1024 ==> size_checked(size) == Err::<(), PobError>(
            PobError::FileTooLarge,
        ),
{
}

/// A document may have sixteen mebibytes, and a summary sixteen headline statistics.
pub proof fn the_limits_of_builds()
    ensures
        MAX_XML_BYTES == 16 * 1024 * 1024,
        MAX_HEADLINES == 16,
{
}

// ---------------------------------------------------------------- statistics

/// Whether statistic `k` is the first with the name, in whatever case.
pub open spec fn is_first_stat(
    stats: Seq<(Seq<char>, Seq<char>)>,
    name: Seq<char>,
    k: int,
) -> bool {
    &&& 0 <= k < stats.len()
    &&& alike(stats[k].0, name)
    &&& forall|j: int| 0 <= j < k ==> !alike((#[trigger] stats[j]).0, name)
}

/// Whether no statistic has the name.
pub open spec fn no_stat(stats: Seq<(Seq<char>, Seq<char>)>, name: Seq<char>) -> bool {
    forall|j: int| 0 <= j < stats.len() ==> !alike((#[trigger] stats[j]).0, name)
}

proof fn lemma_value(stats: Seq<(Seq<char>, Seq<char>)>, name: Seq<char>, k: int)
    ensures
        is_first_stat(stats, name, k) ==> value_of(stats, name) == Some(stats[k].1),
        no_stat(stats, name) ==> value_of(stats, name) is None,
    decreases stats.len(),
{
    if stats.len() > 0 {
        let rest = stats.skip(1);
        lemma_value(rest, name, k - 1);
        if is_first_stat(stats, name, k) && k > 0 {
            assert(!alike(stats[0].0, name));
            assert forall|j: int| 0 <= j < k - 1 implies !alike((#[trigger] rest[j]).0, name) by {
                assert(rest[j] == stats[j + 1]);
            }
            assert(rest[k - 1] == stats[k]);
            assert(is_first_stat(rest, name, k - 1));
        }
        if no_stat(stats, name) {
            assert(!alike(stats[0].0, name));
            assert forall|j: int| 0 <= j < rest.len() implies !alike((#[trigger] rest[j]).0, name) by {
                assert(rest[j] == stats[j + 1]);
            }
        }
    }
}

/// A statistic that goes by several names has the value of the first name that there is, and of its
/// first entry, in whatever case; without any of the names it has none.
pub proof fn the_first_name_decides(
    stats: Seq<(Seq<char>, Seq<char>)>,
    names: Seq<Seq<char>>,
    n: int,
    k: int,
)
    ensures
        0 <= n < names.len() && is_first_stat(stats, names[n], k) && (forall|m: int|
            0 <= m < n ==> no_stat(stats, #[trigger] names[m])) ==> first_value(stats, names) == Some(
            stats[k].1,
        ),
        (forall|m: int| 0 <= m < names.len() ==> no_stat(stats, #[trigger] names[m])) ==> first_value(
            stats,
            names,
        ) is None,
    decreases names.len(),
{
    if names.len() > 0 {
        let rest = names.skip(1);
        the_first_name_decides(stats, rest, n - 1, k);
        lemma_value(stats, names[0], k);
        assert forall|m: int| 0 <= m < rest.len() implies rest[m] == #[trigger] names[m + 1] by {}
        if 0 < n < names.len() && is_first_stat(stats, names[n], k) && (forall|m: int|
            0 <= m < n ==> no_stat(stats, #[trigger] names[m])) {
            assert(no_stat(stats, names[0]));
            assert(rest[n - 1] == names[n]);
            assert forall|m: int| 0 <= m < n - 1 implies no_stat(stats, #[trigger] rest[m]) by {
                assert(rest[m] == names[m + 1]);
            }
        }
        if forall|m: int| 0 <= m < names.len() ==> no_stat(stats, #[trigger] names[m]) {
            assert(no_stat(stats, names[0]));
            assert forall|m: int| 0 <= m < rest.len() implies no_stat(stats, #[trigger] rest[m]) by {
                assert(rest[m] == names[m + 1]);
            }
        }
    }
}

/// Whether a statistic goes into a summary.
pub open spec fn is_summed_up(name: Seq<char>) -> bool {
    seq![
        "Life"@,
        "LifeUnreserved"@,
        "EnergyShield"@,
        "Mana"@,
        "Armour"@,
        "Evasion"@,
        "Ward"@,
        "FireResist"@,
        "ColdResist"@,
        "LightningResist"@,
        "ChaosResist"@,
        "FullDPS"@,
        "CombinedDPS"@,
        "TotalDPS"@,
        "TotalDot"@,
        "Speed"@,
        "CritChance"@,
    ].contains(name)
}

/// The statistics of a summary are kept in their order, each as its name and value.
pub proof fn headline_statistics_are_kept(
    stats: Seq<(Seq<char>, Seq<char>)>,
    name: Seq<char>,
    value: Seq<char>,
)
    ensures
        headlines(Seq::<(Seq<char>, Seq<char>)>::empty()).len() == 0,
        is_summed_up(name) ==> headlines(stats.push((name, value))) == headlines(stats).push(
            name + "="@ + value,
        ),
        !is_summed_up(name) ==> headlines(stats.push((name, value))) == headlines(stats),
{
    assert(stats.push((name, value)).drop_last() =~= stats);
    lemma_summed_up(name);
}

proof fn lemma_summed_up(name: Seq<char>)
    ensures
        is_summed_up(name) == crate::pob::is_headline(name),
{
    let list = seq![
        "Life"@,
        "LifeUnreserved"@,
        "EnergyShield"@,
        "Mana"@,
        "Armour"@,
        "Evasion"@,
        "Ward"@,
        "FireResist"@,
        "ColdResist"@,
        "LightningResist"@,
        "ChaosResist"@,
        "FullDPS"@,
        "CombinedDPS"@,
        "TotalDPS"@,
        "TotalDot"@,
        "Speed"@,
        "CritChance"@,
    ];
    assert(list[0] == "Life"@ && list[1] == "LifeUnreserved"@ && list[2] == "EnergyShield"@
        && list[3] == "Mana"@ && list[4] == "Armour"@ && list[5] == "Evasion"@ && list[6] == "Ward"@
        && list[7] == "FireResist"@ && list[8] == "ColdResist"@ && list[9] == "LightningResist"@
        && list[10] == "ChaosResist"@ && list[11] == "FullDPS"@ && list[12] == "CombinedDPS"@
        && list[13] == "TotalDPS"@ && list[14] == "TotalDot"@ && list[15] == "Speed"@ && list[16]
        == "CritChance"@);
    if is_summed_up(name) {
        let k = choose|k: int| 0 <= k < list.len() && list[k] == name;
        assert(k == 0 || k == 1 || k == 2 || k == 3 || k == 4 || k == 5 || k == 6 || k == 7 || k == 8
            || k == 9 || k == 10 || k == 11 || k == 12 || k == 13 || k == 14 || k == 15 || k == 16);
    }
}

// ---------------------------------------------------------------- summaries

/// The character of a build is told by its level, class and ascendancy, with a space between each
/// two that are known.
pub proof fn a_build_is_told_by_level_class_and_ascendancy(b: PobBuild)
    ensures
        ({
            let class_name = b.class_name@;
            let ascendancy = b.ascendancy@;
            let classed = class_name.len() > 0;
            let ascended = ascendancy.len() > 0;
            &&& b.level matches Some(n) ==> {
                let level = "Level "@ + decimal(n as nat);
                &&& classed && ascended ==> b.identity() == level + " "@ + class_name + " "@
                    + ascendancy
                &&& classed && !ascended ==> b.identity() == level + " "@ + class_name
                &&& !classed && ascended ==> b.identity() == level + " "@ + ascendancy
                &&& !classed && !ascended ==> b.identity() == level
            }
            &&& b.level is None ==> {
                &&& classed && ascended ==> b.identity() == class_name + " "@ + ascendancy
                &&& classed && !ascended ==> b.identity() == class_name
                &&& !classed && ascended ==> b.identity() == ascendancy
                &&& !classed && !ascended ==> b.identity().len() == 0
            }
        }),
{
    let level: Option<Seq<char>> = match b.level {
        Some(n) => Some("Level "@ + decimal(n as nat)),
        None => None,
    };
    let class_name: Option<Seq<char>> = if b.class_name@.len() > 0 {
        Some(b.class_name@)
    } else {
        None
    };
    let ascendancy: Option<Seq<char>> = if b.ascendancy@.len() > 0 {
        Some(b.ascendancy@)
    } else {
        None
    };
    let none = Seq::<Option<Seq<char>>>::empty();
    let all = seq![level, class_name, ascendancy];
    reveal_with_fuel(present, 4);
    reveal_with_fuel(joined, 4);
    assert(all.drop_last() =~= seq![level, class_name]);
    assert(seq![level, class_name].drop_last() =~= seq![level]);
    assert(seq![level].drop_last() =~= none);
    let list = present(all);
    assert(list =~= known_part(level) + known_part(class_name) + known_part(ascendancy));
    if list.len() == 3 {
        assert(list.drop_last() =~= seq![level->0, class_name->0]);
        assert(list.drop_last().drop_last() =~= seq![level->0]);
    } else if list.len() == 2 {
        assert(list.drop_last() =~= seq![list[0]]);
    }
}

spec fn known_part(text: Option<Seq<char>>) -> Seq<Seq<char>> {
    match text {
        Some(text) => seq![text],
        None => seq![],
    }
}

/// The lines of a summary of a build.
pub open spec fn build_summary(
    character: Seq<char>,
    main_skill: Seq<char>,
    stats: Seq<char>,
    skills: Seq<char>,
    equipment: Seq<char>,
) -> Seq<char> {
    "Character: "@ + character + "\nMain skill: "@ + main_skill + "\nStats: "@ + stats
        + "\nSkills: "@ + skills + "\nEquipment: "@ + equipment
}

/// A summary tells the character, the main skill, the first sixteen headline statistics, the gems
/// and the equipment on one line each.
pub proof fn a_summary_tells_the_build(b: PobBuild)
    ensures
        b.summary_text() == build_summary(
            b.identity(),
            if b.main_skill@.len() > 0 {
                b.main_skill@
            } else {
                "unknown"@
            },
            joined(first_of(headlines(stat_texts(b.stats@)), 16), ", "@),
            joined(views(b.skill_gems@), ", "@),
            joined(slot_texts(equipment_texts(b.equipment@)), ", "@),
        ),
{
}

/// Each slot is shown in its place with what it holds.
pub proof fn slots_are_shown_in_their_places(equipment: Seq<(Seq<char>, Seq<char>)>, i: int)
    requires
        0 <= i < equipment.len(),
    ensures
        slot_texts(equipment).len() == equipment.len(),
        slot_texts(equipment)[i] == equipment[i].0 + ": "@ + equipment[i].1,
{
}

} // verus!
