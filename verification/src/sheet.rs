//! The text of a character sheet as it comes from a screenshot.

use vstd::prelude::*;
use vstd::string::*;
use crate::order::TextMap;
use crate::patterns::{captured, captured_in, find, first_match, found_texts, is_pattern};
use crate::text::{
    filled, filled_lines, lines, lines_follow_each_other, lines_of, option_text, pair_texts, trim,
    trimmed, trimming_twice_is_trimming_once, views,
};

verus! {

/// Why nothing is read.
#[derive(Debug, Clone, Copy, PartialEq, Eq, Structural)]
pub enum SheetError {
    /// A pattern was refused.
    Pattern,
    /// No value was recognized.
    Nothing,
}

/// The names of the values that are read, each with the pattern of its label.
pub open spec fn sheet_fields() -> Seq<(Seq<char>, Seq<char>)> {
    seq![
        ("Life"@, r"Life"@),
        ("Mana"@, r"Mana"@),
        ("Energy Shield"@, r"Energy\s+Shield"@),
        ("Armour"@, r"Armou?r"@),
        ("Evasion"@, r"Evasion(?:\s+Rating)?"@),
        ("Fire Resistance"@, r"Fire\s+Resistance"@),
        ("Cold Resistance"@, r"Cold\s+Resistance"@),
        ("Lightning Resistance"@, r"Lightning\s+Resistance"@),
        ("Chaos Resistance"@, r"Chaos\s+Resistance"@),
        ("Damage per Second"@, r"Damage\s+per\s+Second"@),
        ("Attack Speed"@, r"Attacks?\s+per\s+Second"@),
        ("Cast Speed"@, r"Casts?\s+per\s+Second"@),
        ("Critical Strike Chance"@, r"Critical\s+Strike\s+Chance"@),
        ("Movement Speed"@, r"Movement\s+Speed"@),
    ]
}

fn fields() -> (r: Vec<(&'static str, &'static str)>)
    ensures
        pair_texts(r@) == sheet_fields(),
{
    let r: Vec<(&'static str, &'static str)> = vec![
        ("Life", r"Life"),
        ("Mana", r"Mana"),
        ("Energy Shield", r"Energy\s+Shield"),
        ("Armour", r"Armou?r"),
        ("Evasion", r"Evasion(?:\s+Rating)?"),
        ("Fire Resistance", r"Fire\s+Resistance"),
        ("Cold Resistance", r"Cold\s+Resistance"),
        ("Lightning Resistance", r"Lightning\s+Resistance"),
        ("Chaos Resistance", r"Chaos\s+Resistance"),
        ("Damage per Second", r"Damage\s+per\s+Second"),
        ("Attack Speed", r"Attacks?\s+per\s+Second"),
        ("Cast Speed", r"Casts?\s+per\s+Second"),
        ("Critical Strike Chance", r"Critical\s+Strike\s+Chance"),
        ("Movement Speed", r"Movement\s+Speed"),
    ];
    assert(pair_texts(r@) =~= sheet_fields());
    r
}

// ---------------------------------------------------------------- one value

/// A number behind a label.
pub open spec fn after_pattern(label: Seq<char>) -> Seq<char> {
    r"(?i)"@ + label + r"\s*[:\-]?\s*(-?[0-9][0-9,.]*%?)"@
}

/// A number in front of a label.
pub open spec fn before_pattern(label: Seq<char>) -> Seq<char> {
    r"(?i)(-?[0-9][0-9,.]*%?)\s*"@ + label
}

/// The number that the match behind a label holds, or else the match in front of it.
pub open spec fn nearest(
    after: Option<Seq<Option<Seq<char>>>>,
    before: Option<Seq<Option<Seq<char>>>>,
) -> Option<Seq<char>> {
    if after is Some {
        captured_in(after)
    } else {
        captured_in(before)
    }
}

/// The number next to a label: behind it, or else in front of it.
pub open spec fn value_near(line: Seq<char>, label: Seq<char>) -> Result<
    Option<Seq<char>>,
    SheetError,
> {
    match first_match(after_pattern(label), line) {
        None => Err(SheetError::Pattern),
        Some(Some(groups)) => Ok(nearest(Some(groups), None)),
        Some(None) => match first_match(before_pattern(label), line) {
            None => Err(SheetError::Pattern),
            Some(found) => Ok(nearest(None, found)),
        },
    }
}

/// The number that the match behind a label holds, or else the match in front of it.
pub fn nearest_value(
    after: &Option<Vec<Option<String>>>,
    before: &Option<Vec<Option<String>>>,
) -> (r: Option<String>)
    ensures
        option_text(r) == nearest(found_texts(*after), found_texts(*before)),
{
    let value = if after.is_some() {
        captured(after)
    } else {
        captured(before)
    };
    match value {
        Some(value) => Some(value.to_string()),
        None => None,
    }
}

/// The number next to a label: behind it, or else in front of it.
pub fn value_near_label(line: &str, label: &str) -> (r: Result<Option<String>, SheetError>)
    ensures
        match r {
            Ok(value) => value_near(line@, label@) == Ok::<Option<Seq<char>>, SheetError>(
                option_text(value),
            ),
            Err(e) => value_near(line@, label@) == Err::<Option<Seq<char>>, SheetError>(e),
        },
{
    let mut after = r"(?i)".to_string();
    after.append(label);
    after.append(r"\s*[:\-]?\s*(-?[0-9][0-9,.]*%?)");
    let found = match find(&after, line) {
        Ok(found) => found,
        Err(_) => {
            return Err(SheetError::Pattern);
        },
    };
    if found.is_some() {
        return Ok(nearest_value(&found, &None));
    }
    let mut before = r"(?i)(-?[0-9][0-9,.]*%?)\s*".to_string();
    before.append(label);
    match find(&before, line) {
        Ok(found) => Ok(nearest_value(&None, &found)),
        Err(_) => Err(SheetError::Pattern),
    }
}

// ---------------------------------------------------------------- one line

/// The values that a line holds for the first `n` fields.
pub open spec fn line_values(line: Seq<char>, n: int) -> Result<Seq<Option<Seq<char>>>, SheetError>
    decreases n,
{
    if n <= 0 {
        Ok(Seq::empty())
    } else {
        match line_values(line, n - 1) {
            Err(e) => Err(e),
            Ok(values) => match value_near(line, sheet_fields()[n - 1].1) {
                Err(e) => Err(e),
                Ok(value) => Ok(values.push(value)),
            },
        }
    }
}

/// The texts of values that may be missing.
pub open spec fn value_texts(values: Seq<Option<String>>) -> Seq<Option<Seq<char>>> {
    values.map_values(|v: Option<String>| option_text(v))
}

/// An error in the first fields is an error of all of them.
proof fn lemma_first_error(line: Seq<char>, n: int, m: int)
    requires
        n <= m,
        line_values(line, n) is Err,
    ensures
        line_values(line, m) == line_values(line, n),
    decreases m - n,
{
    if n < m {
        lemma_first_error(line, n, m - 1);
    }
}

fn read_line(line: &str) -> (r: Result<Vec<Option<String>>, SheetError>)
    ensures
        match r {
            Ok(values) => line_values(line@, sheet_fields().len() as int) == Ok::<
                Seq<Option<Seq<char>>>,
                SheetError,
            >(value_texts(values@)),
            Err(e) => line_values(line@, sheet_fields().len() as int) == Err::<
                Seq<Option<Seq<char>>>,
                SheetError,
            >(e),
        },
{
    let fields = fields();
    let mut values: Vec<Option<String>> = Vec::new();
    let mut i: usize = 0;
    assert(value_texts(values@) =~= Seq::empty());
    assert(pair_texts(fields@).len() == fields@.len());
    while i < fields.len()
        invariant
            i <= fields@.len(),
            pair_texts(fields@) == sheet_fields(),
            fields@.len() == sheet_fields().len(),
            line_values(line@, i as int) == Ok::<Seq<Option<Seq<char>>>, SheetError>(
                value_texts(values@),
            ),
        decreases fields@.len() - i,
    {
        let ghost before = value_texts(values@);
        assert(pair_texts(fields@)[i as int] == (fields@[i as int].0@, fields@[i as int].1@));
        match value_near_label(line, fields[i].1) {
            Ok(value) => {
                values.push(value);
                assert(value_texts(values@) =~= before.push(option_text(value)));
            },
            Err(e) => {
                proof {
                    lemma_first_error(line@, i + 1, sheet_fields().len() as int);
                }
                return Err(e);
            },
        }
        i = i + 1;
    }
    Ok(values)
}

/// The map with the values of the first `n` fields; a value that was read before stays.
pub open spec fn merged(
    stats: Map<Seq<char>, Seq<char>>,
    values: Seq<Option<Seq<char>>>,
    n: int,
) -> Map<Seq<char>, Seq<char>>
    decreases n,
{
    if n <= 0 {
        stats
    } else {
        let before = merged(stats, values, n - 1);
        let name = sheet_fields()[n - 1].0;
        match values[n - 1] {
            Some(value) => if before.contains_key(name) {
                before
            } else {
                before.insert(name, value)
            },
            None => before,
        }
    }
}

/// Puts the values of a line under the names of their fields; a value that was read before stays.
pub fn merge_values(stats: &mut TextMap, values: &Vec<Option<String>>)
    requires
        values@.len() == sheet_fields().len(),
    ensures
        final(stats)@ == merged(old(stats)@, value_texts(values@), values@.len() as int),
{
    let fields = fields();
    assert(pair_texts(fields@).len() == fields@.len());
    let ghost before = stats@;
    let mut i: usize = 0;
    while i < values.len()
        invariant
            i <= values@.len(),
            values@.len() == fields@.len(),
            pair_texts(fields@) == sheet_fields(),
            stats@ == merged(before, value_texts(values@), i as int),
        decreases values@.len() - i,
    {
        proof {
            assert(pair_texts(fields@)[i as int] == (fields@[i as int].0@, fields@[i as int].1@));
            assert(value_texts(values@)[i as int] == option_text(values@[i as int]));
        }
        if let Some(value) = &values[i] {
            stats.insert_missing(fields[i].0.to_string(), value.clone());
        }
        i = i + 1;
    }
}

// ---------------------------------------------------------------- the sheet

/// What the lines tell.
pub open spec fn sheet_of(lines: Seq<Seq<char>>) -> Result<Map<Seq<char>, Seq<char>>, SheetError>
    decreases lines.len(),
{
    if lines.len() == 0 {
        Ok(Map::empty())
    } else {
        let line = trimmed(lines.last());
        match sheet_of(lines.drop_last()) {
            Err(e) => Err(e),
            Ok(stats) => if line.len() == 0 {
                Ok(stats)
            } else {
                match line_values(line, sheet_fields().len() as int) {
                    Err(e) => Err(e),
                    Ok(values) => Ok(merged(stats, values, values.len() as int)),
                }
            },
        }
    }
}

/// What a text tells.
pub open spec fn sheet_in(input: Seq<char>) -> Result<Map<Seq<char>, Seq<char>>, SheetError> {
    match sheet_of(lines_of(input)) {
        Err(e) => Err(e),
        Ok(stats) => if stats == Map::<Seq<char>, Seq<char>>::empty() {
            Err(SheetError::Nothing)
        } else {
            Ok(stats)
        },
    }
}

proof fn lemma_values_len(line: Seq<char>, n: int)
    requires
        0 <= n,
    ensures
        line_values(line, n) matches Ok(values) ==> values.len() == n,
    decreases n,
{
    if n > 0 {
        lemma_values_len(line, n - 1);
    }
}

/// An error in the first lines is an error of all of them.
proof fn lemma_first_line_error(lines: Seq<Seq<char>>, n: int)
    requires
        0 <= n <= lines.len(),
        sheet_of(lines.take(n)) is Err,
    ensures
        sheet_of(lines) == sheet_of(lines.take(n)),
    decreases lines.len() - n,
{
    if n < lines.len() {
        assert(lines.take(n + 1).drop_last() =~= lines.take(n));
        lemma_first_line_error(lines, n + 1);
    } else {
        assert(lines.take(n) =~= lines);
    }
}

/// The values that the text of a character sheet tells, under the names of their fields.
pub fn parse_character_sheet_text(input: &str) -> (r: Result<TextMap, SheetError>)
    ensures
        match r {
            Ok(stats) => sheet_in(input@) == Ok::<Map<Seq<char>, Seq<char>>, SheetError>(stats@),
            Err(e) => sheet_in(input@) == Err::<Map<Seq<char>, Seq<char>>, SheetError>(e),
        },
{
    let list = lines(input);
    let ghost all = views(list@);
    let mut stats = TextMap::new();
    let mut i: usize = 0;
    while i < list.len()
        invariant
            i <= list@.len(),
            all == views(list@),
            all == lines_of(input@),
            sheet_of(all.take(i as int)) == Ok::<Map<Seq<char>, Seq<char>>, SheetError>(stats@),
        decreases list@.len() - i,
    {
        let line = trim(&list[i]);
        proof {
            assert(all.take(i + 1).drop_last() =~= all.take(i as int));
            assert(all.take(i + 1).last() == list@[i as int]@);
            lemma_values_len(line@, sheet_fields().len() as int);
        }
        if !line.is_empty() {
            match read_line(line) {
                Ok(values) => {
                    assert(value_texts(values@).len() == values@.len());
                    merge_values(&mut stats, &values);
                },
                Err(e) => {
                    proof {
                        lemma_first_line_error(all, i + 1);
                    }
                    return Err(e);
                },
            }
        }
        i = i + 1;
    }
    assert(all.take(i as int) =~= all);
    if stats.is_empty() {
        Err(SheetError::Nothing)
    } else {
        Ok(stats)
    }
}

/// Whether a name is that of a field.
pub open spec fn is_field(name: Seq<char>) -> bool {
    exists|i: int| 0 <= i < sheet_fields().len() && #[trigger] sheet_fields()[i].0 == name
}

proof fn lemma_merged(
    stats: Map<Seq<char>, Seq<char>>,
    values: Seq<Option<Seq<char>>>,
    n: int,
    name: Seq<char>,
)
    requires
        n <= sheet_fields().len(),
    ensures
        stats.contains_key(name) ==> merged(stats, values, n).contains_key(name) && merged(
            stats,
            values,
            n,
        )[name] == stats[name],
        merged(stats, values, n).contains_key(name) ==> stats.contains_key(name) || is_field(name),
    decreases n,
{
    if n > 0 {
        lemma_merged(stats, values, n - 1, name);
        assert(sheet_fields()[n - 1].0 == sheet_fields()[n - 1].0);
    }
}

/// Later lines change nothing that was read before them.
pub proof fn the_first_value_stays(first: Seq<Seq<char>>, later: Seq<Seq<char>>, name: Seq<char>)
    requires
        sheet_of(first) is Ok,
        sheet_of(first + later) is Ok,
        sheet_of(first)->Ok_0.contains_key(name),
    ensures
        sheet_of(first + later)->Ok_0.contains_key(name),
        sheet_of(first + later)->Ok_0[name] == sheet_of(first)->Ok_0[name],
    decreases later.len(),
{
    let all = first + later;
    if later.len() == 0 {
        assert(all =~= first);
    } else {
        assert(all.drop_last() =~= first + later.drop_last());
        the_first_value_stays(first, later.drop_last(), name);
        let line = trimmed(all.last());
        if line.len() > 0 {
            lemma_values_len(line, sheet_fields().len() as int);
            let values = line_values(line, sheet_fields().len() as int)->Ok_0;
            lemma_merged(sheet_of(all.drop_last())->Ok_0, values, values.len() as int, name);
        }
    }
}

/// Nothing but fields is read.
pub proof fn only_fields_are_read(lines: Seq<Seq<char>>, name: Seq<char>)
    requires
        sheet_of(lines) is Ok,
        sheet_of(lines)->Ok_0.contains_key(name),
    ensures
        is_field(name),
    decreases lines.len(),
{
    if lines.len() > 0 {
        let line = trimmed(lines.last());
        let before = sheet_of(lines.drop_last())->Ok_0;
        if line.len() > 0 {
            lemma_values_len(line, sheet_fields().len() as int);
            let values = line_values(line, sheet_fields().len() as int)->Ok_0;
            lemma_merged(before, values, values.len() as int, name);
        }
        if before.contains_key(name) {
            only_fields_are_read(lines.drop_last(), name);
        }
    }
}

proof fn lemma_sheet_of_filled(lines: Seq<Seq<char>>)
    ensures
        sheet_of(lines) == sheet_of(filled_lines(lines)),
    decreases lines.len(),
{
    if lines.len() > 0 {
        let init = lines.drop_last();
        let line = trimmed(lines.last());
        lemma_sheet_of_filled(init);
        if line.len() > 0 {
            let all = filled_lines(lines);
            trimming_twice_is_trimming_once(lines.last());
            assert(all.drop_last() =~= filled_lines(init));
            assert(all.last() == line);
        }
    }
}

/// Whether the pattern of a number in front of its label is accepted for every field.
pub open spec fn fronts_accepted() -> bool {
    forall|i: int|
        0 <= i < sheet_fields().len() ==> is_pattern(
            before_pattern((#[trigger] sheet_fields()[i]).1),
        )
}

/// Whether the pattern of a number behind its label is accepted for every field.
pub open spec fn backs_accepted() -> bool {
    forall|i: int|
        0 <= i < sheet_fields().len() ==> is_pattern(after_pattern((#[trigger] sheet_fields()[i]).1))
}

proof fn lemma_line_error(line: Seq<char>, n: int)
    requires
        n <= sheet_fields().len(),
    ensures
        line_values(line, n) matches Err(e) ==> e == SheetError::Pattern && !(fronts_accepted()
            && backs_accepted()),
        line_values(line, n) is Ok ==> forall|i: int|
            0 <= i < n ==> is_pattern(after_pattern((#[trigger] sheet_fields()[i]).1)),
    decreases n,
{
    if n > 0 {
        lemma_line_error(line, n - 1);
        let field = sheet_fields()[n - 1];
        if line_values(line, n) is Ok {
            assert forall|i: int| 0 <= i < n implies is_pattern(
                after_pattern((#[trigger] sheet_fields()[i]).1),
            ) by {
                if i == n - 1 {
                    assert(value_near(line, field.1) is Ok);
                }
            }
        }
    }
}

proof fn lemma_sheet_error(lines: Seq<Seq<char>>)
    ensures
        sheet_of(lines) matches Err(e) ==> e == SheetError::Pattern && !(fronts_accepted()
            && backs_accepted()),
        sheet_of(lines) matches Ok(stats) ==> stats == Map::<Seq<char>, Seq<char>>::empty()
            || backs_accepted(),
    decreases lines.len(),
{
    if lines.len() > 0 {
        lemma_sheet_error(lines.drop_last());
        let line = trimmed(lines.last());
        if line.len() > 0 {
            lemma_line_error(line, sheet_fields().len() as int);
        }
    }
}

/// Where every pattern is accepted, a text is refused for one reason alone: it tells no value.
pub proof fn accepted_patterns_read_every_text(input: Seq<char>)
    requires
        fronts_accepted(),
        backs_accepted(),
    ensures
        sheet_in(input) is Ok || sheet_in(input) == Err::<Map<Seq<char>, Seq<char>>, SheetError>(
            SheetError::Nothing,
        ),
{
    lemma_sheet_error(lines_of(input));
}

/// A sheet that is read tells a value. More text behind it only adds values: what was read stays as
/// it is. The text is read, unless a pattern that the sheet did not need, of a number in front of
/// its label, is refused.
pub proof fn more_text_only_adds_values(a: Seq<char>, b: Seq<char>)
    requires
        sheet_in(a) is Ok,
    ensures
        exists|name: Seq<char>| #[trigger] sheet_in(a)->Ok_0.contains_key(name),
        match sheet_in(a + seq!['\n'] + b) {
            Ok(more) => forall|name: Seq<char>| #[trigger]
                sheet_in(a)->Ok_0.contains_key(name) ==> more.contains_key(name) && more[name]
                    == sheet_in(a)->Ok_0[name],
            Err(e) => e == SheetError::Pattern && !fronts_accepted(),
        },
{
    let m = sheet_in(a)->Ok_0;
    let s = a + seq!['\n'] + b;
    let first = filled(a);
    let later = filled(b);
    assert(exists|name: Seq<char>| #[trigger] m.contains_key(name)) by {
        if forall|name: Seq<char>| !(#[trigger] m.contains_key(name)) {
            assert(m =~= Map::empty());
        }
    }
    lemma_sheet_of_filled(lines_of(a));
    lemma_sheet_of_filled(lines_of(s));
    lines_follow_each_other(a, b);
    lemma_sheet_error(first);
    lemma_sheet_error(first + later);
    if sheet_of(first + later) is Ok {
        assert forall|name: Seq<char>| #[trigger] m.contains_key(name) implies sheet_of(
            first + later,
        )->Ok_0.contains_key(name) && sheet_of(first + later)->Ok_0[name] == m[name] by {
            the_first_value_stays(first, later, name);
        }
    }
}

impl SheetError {
    /// What a user is told.
    pub open spec fn message_text(self) -> Seq<char> {
        match self {
            SheetError::Pattern => "a character-sheet pattern is invalid"@,
            SheetError::Nothing => "no supported character-sheet values were recognized"@,
        }
    }

    /// What a user is told.
    pub fn message(&self) -> (r: &'static str)
        ensures
            r@ == self.message_text(),
    {
        match self {
            SheetError::Pattern => "a character-sheet pattern is invalid",
            SheetError::Nothing => "no supported character-sheet values were recognized",
        }
    }
}

} // verus!
