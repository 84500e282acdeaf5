//! What is read from the text of a character sheet.

use vstd::prelude::*;
use vstd::string::*;
use crate::patterns::{first_groups, is_pattern};
use crate::sheet::{
    line_values, merged, only_fields_are_read, sheet_fields, sheet_in, sheet_of, value_near,
    SheetError,
};
use crate::text::{lines_of, trimmed};

verus! {

/// The values of a sheet, each with the pattern of its label.
pub open spec fn labels() -> Seq<(Seq<char>, Seq<char>)> {
    seq![
        ("Life"@, r"Life"@),
        ("Mana"@, r"Mana"@),
        ("Energy Shield"@, r"Energy\s+Shield"@),
        ("Armour"@, r"Armou?r"@),
        ("Evasion"@, r"Evasion(?:\s+Rating)?"@),
        ("Fire Resistance"@, r"Fire\s+Resistance"@),
        ("Cold Resistance"@, r"Cold\s+Resistance"@),
        ("Lightning Resistance"@, r"Lightning\s+Resistance"@),
        ("Chaos Resistance"@, r"Chaos\s+Resistance"@),
        ("Damage per Second"@, r"Damage\s+per\s+Second"@),
        ("Attack Speed"@, r"Attacks?\s+per\s+Second"@),
        ("Cast Speed"@, r"Casts?\s+per\s+Second"@),
        ("Critical Strike Chance"@, r"Critical\s+Strike\s+Chance"@),
        ("Movement Speed"@, r"Movement\s+Speed"@),
    ]
}

/// The number next to a label is the one behind it, where one stands there; or else the one in front
/// of it, where one stands there.
pub proof fn the_number_behind_a_label_goes_first(line: Seq<char>, label: Seq<char>)
    ensures
        ({
            let behind = r"(?i)"@ + label + r"\s*[:\-]?\s*(-?[0-9][0-9,.]*%?)"@;
            let front = r"(?i)(-?[0-9][0-9,.]*%?)\s*"@ + label;
            let number = |groups: Seq<Option<Seq<char>>>|
                if groups.len() > 1 {
                    groups[1]
                } else {
                    None
                };
            &&& is_pattern(behind) ==> (first_groups(behind, line) matches Some(groups)
                ==> value_near(line, label) == Ok::<Option<Seq<char>>, SheetError>(number(groups)))
            &&& is_pattern(behind) && is_pattern(front) && first_groups(behind, line) is None ==> (
            first_groups(front, line) matches Some(groups) ==> value_near(line, label) == Ok::<
                Option<Seq<char>>,
                SheetError,
            >(number(groups)))
            &&& is_pattern(behind) && is_pattern(front) && first_groups(behind, line) is None
                && first_groups(front, line) is None ==> value_near(line, label) == Ok::<
                Option<Seq<char>>,
                SheetError,
            >(None)
        }),
{
}

proof fn lemma_values(line: Seq<char>, n: int, i: int)
    requires
        0 <= i < n <= sheet_fields().len(),
        line_values(line, n) is Ok,
    ensures
        line_values(line, n)->Ok_0.len() == n,
        value_near(line, sheet_fields()[i].1) == Ok::<Option<Seq<char>>, SheetError>(
            line_values(line, n)->Ok_0[i],
        ),
    decreases n,
{
    if i < n - 1 {
        lemma_values(line, n - 1, i);
    } else if n > 1 {
        lemma_values(line, n - 1, 0);
    } else {
        assert(line_values(line, 0)->Ok_0.len() == 0);
    }
}

proof fn lemma_names()
    ensures
        labels().len() == 14,
        forall|i: int, j: int|
            0 <= i < 14 && 0 <= j < 14 && i != j ==> (#[trigger] labels()[i]).0 != (
            #[trigger] labels()[j]).0,
{
    reveal_strlit("Life");
    reveal_strlit("Mana");
    reveal_strlit("Energy Shield");
    reveal_strlit("Armour");
    reveal_strlit("Evasion");
    reveal_strlit("Fire Resistance");
    reveal_strlit("Cold Resistance");
    reveal_strlit("Lightning Resistance");
    reveal_strlit("Chaos Resistance");
    reveal_strlit("Damage per Second");
    reveal_strlit("Attack Speed");
    reveal_strlit("Cast Speed");
    reveal_strlit("Critical Strike Chance");
    reveal_strlit("Movement Speed");
    let l = labels();
    assert(l[0].0.len() == 4 && l[0].0[0] == 'L');
    assert(l[1].0.len() == 4 && l[1].0[0] == 'M');
    assert(l[2].0.len() == 13 && l[3].0.len() == 6 && l[4].0.len() == 7);
    assert(l[5].0.len() == 15 && l[5].0[0] == 'F');
    assert(l[6].0.len() == 15 && l[6].0[0] == 'C');
    assert(l[7].0.len() == 20 && l[8].0.len() == 16 && l[9].0.len() == 17);
    assert(l[10].0.len() == 12 && l[11].0.len() == 10);
    assert(l[12].0.len() == 22 && l[13].0.len() == 14);
}

proof fn lemma_merged(
    stats: Map<Seq<char>, Seq<char>>,
    values: Seq<Option<Seq<char>>>,
    n: int,
    i: int,
)
    requires
        0 <= n <= 14,
        0 <= i < 14,
        sheet_fields() == labels(),
    ensures
        ({
            let name = labels()[i].0;
            let now = merged(stats, values, n);
            &&& stats.contains_key(name) ==> now.contains_key(name) && now[name] == stats[name]
            &&& !stats.contains_key(name) && i < n && values[i] is Some ==> now.contains_key(name)
                && now[name] == values[i]->0
            &&& !stats.contains_key(name) && !(i < n && values[i] is Some) ==> !now.contains_key(
                name,
            )
        }),
    decreases n,
{
    lemma_names();
    if n > 0 {
        lemma_merged(stats, values, n - 1, i);
        if i != n - 1 {
            assert(labels()[i].0 != labels()[n - 1].0);
        }
    }
}

/// Whether a line tells nothing next to a label.
pub open spec fn tells_nothing(line: Seq<char>, label: Seq<char>) -> bool {
    line.len() == 0 || value_near(line, label) == Ok::<Option<Seq<char>>, SheetError>(None)
}

/// Whether line `k` is the first that tells a value next to a label.
pub open spec fn is_first_value(
    lines: Seq<Seq<char>>,
    label: Seq<char>,
    k: int,
    value: Seq<char>,
) -> bool {
    &&& 0 <= k < lines.len()
    &&& trimmed(lines[k]).len() > 0
    &&& value_near(trimmed(lines[k]), label) == Ok::<Option<Seq<char>>, SheetError>(Some(value))
    &&& forall|j: int| 0 <= j < k ==> tells_nothing(trimmed(#[trigger] lines[j]), label)
}

proof fn lemma_sheet(lines: Seq<Seq<char>>, i: int, k: int, value: Seq<char>)
    requires
        0 <= i < 14,
        sheet_fields() == labels(),
        sheet_of(lines) is Ok,
    ensures
        is_first_value(lines, labels()[i].1, k, value) ==> sheet_of(lines)->Ok_0.contains_key(
            labels()[i].0,
        ) && sheet_of(lines)->Ok_0[labels()[i].0] == value,
        (forall|j: int|
            0 <= j < lines.len() ==> tells_nothing(trimmed(#[trigger] lines[j]), labels()[i].1))
            ==> !sheet_of(lines)->Ok_0.contains_key(labels()[i].0),
    decreases lines.len(),
{
    let label = labels()[i].1;
    if lines.len() > 0 {
        let init = lines.drop_last();
        let line = trimmed(lines.last());
        lemma_sheet(init, i, k, value);
        assert forall|j: int| 0 <= j < init.len() implies init[j] == #[trigger] lines[j] by {}
        let before = sheet_of(init)->Ok_0;
        if line.len() > 0 {
            lemma_values(line, 14, i);
            let values = line_values(line, 14)->Ok_0;
            lemma_merged(before, values, 14, i);
        }
        if is_first_value(lines, label, k, value) {
            if k < init.len() {
                assert(is_first_value(init, label, k, value)) by {
                    assert forall|j: int| 0 <= j < k implies tells_nothing(
                        trimmed(#[trigger] init[j]),
                        label,
                    ) by {
                        assert(init[j] == lines[j]);
                    }
                }
            } else {
                assert forall|j: int| 0 <= j < init.len() implies tells_nothing(
                    trimmed(#[trigger] init[j]),
                    label,
                ) by {
                    assert(init[j] == lines[j]);
                }
            }
        }
        if forall|j: int|
            0 <= j < lines.len() ==> tells_nothing(trimmed(#[trigger] lines[j]), label) {
            assert forall|j: int| 0 <= j < init.len() implies tells_nothing(
                trimmed(#[trigger] init[j]),
                label,
            ) by {
                assert(init[j] == lines[j]);
            }
            assert(tells_nothing(trimmed(lines[lines.len() - 1]), label));
        }
    }
}

/// Each value of a sheet is the one that the first line with its label tells; a value that no line
/// tells is not there.
pub proof fn the_first_line_tells_the_value(
    input: Seq<char>,
    i: int,
    k: int,
    value: Seq<char>,
)
    requires
        0 <= i < labels().len(),
        sheet_in(input) is Ok,
    ensures
        is_first_value(lines_of(input), labels()[i].1, k, value) ==> sheet_in(
            input,
        )->Ok_0.contains_key(labels()[i].0) && sheet_in(input)->Ok_0[labels()[i].0] == value,
        (forall|j: int|
            0 <= j < lines_of(input).len() ==> tells_nothing(
                trimmed(#[trigger] lines_of(input)[j]),
                labels()[i].1,
            )) ==> !sheet_in(input)->Ok_0.contains_key(labels()[i].0),
{
    assert(sheet_fields() =~= labels());
    lemma_sheet(lines_of(input), i, k, value);
}

/// A text in which no line tells a value of any label is no sheet.
pub proof fn a_text_without_values_is_no_sheet(input: Seq<char>)
    requires
        forall|i: int, j: int|
            0 <= i < labels().len() && 0 <= j < lines_of(input).len() ==> tells_nothing(
                trimmed(#[trigger] lines_of(input)[j]),
                (#[trigger] labels()[i]).1,
            ),
    ensures
        sheet_in(input) is Err,
{
    assert(sheet_fields() =~= labels());
    if sheet_in(input) is Ok {
        let m = sheet_in(input)->Ok_0;
        assert(m =~= Map::<Seq<char>, Seq<char>>::empty()) by {
            assert forall|name: Seq<char>| !(#[trigger] m.contains_key(name)) by {
                if m.contains_key(name) {
                    only_fields_are_read(lines_of(input), name);
                    let i = choose|i: int|
                        0 <= i < sheet_fields().len() && #[trigger] sheet_fields()[i].0 == name;
                    lemma_sheet(lines_of(input), i, 0, Seq::empty());
                    assert(labels()[i].0 == name);
                }
            }
        }
    }
}

} // verus!
