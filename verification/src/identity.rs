//! Who a character is, as far as a text tells.

use vstd::prelude::*;
use vstd::string::*;
use crate::number::{parse_u32, unsigned_in};
use crate::patterns::{captured, captured_in, find, first_match, found_texts, group, group_at};
use crate::text::{
    alike, letter_words, letter_words_of, lines, lines_of, name_views, option_text, pair_texts,
    same_ignoring_case, trim, trimmed, views,
};

verus! {

/// What a text tells of who a character is.
#[derive(Debug, Clone, PartialEq, Eq)]
pub struct DetectedCharacterIdentity {
    pub name: Option<String>,
    pub class_name: Option<String>,
    pub ascendancy: Option<String>,
    pub league: Option<String>,
    pub level: Option<u32>,
}

/// The texts of [`DetectedCharacterIdentity`].
pub struct IdentityTexts {
    pub name: Option<Seq<char>>,
    pub class_name: Option<Seq<char>>,
    pub ascendancy: Option<Seq<char>>,
    pub league: Option<Seq<char>>,
    pub level: Option<int>,
}

impl View for DetectedCharacterIdentity {
    type V = IdentityTexts;

    open spec fn view(&self) -> IdentityTexts {
        IdentityTexts {
            name: option_text(self.name),
            class_name: option_text(self.class_name),
            ascendancy: option_text(self.ascendancy),
            league: option_text(self.league),
            level: match self.level {
                Some(level) => Some(level as int),
                None => None,
            },
        }
    }
}

/// Nothing known.
pub open spec fn unknown_identity() -> IdentityTexts {
    IdentityTexts { name: None, class_name: None, ascendancy: None, league: None, level: None }
}

impl Default for DetectedCharacterIdentity {
    fn default() -> (r: Self)
        ensures
            r@ == unknown_identity(),
    {
        DetectedCharacterIdentity {
            name: None,
            class_name: None,
            ascendancy: None,
            league: None,
            level: None,
        }
    }
}

impl DetectedCharacterIdentity {
    /// Whether anything is known.
    pub fn has_values(&self) -> (r: bool)
        ensures
            r == (self@ != unknown_identity()),
    {
        self.name.is_some() || self.class_name.is_some() || self.ascendancy.is_some()
            || self.league.is_some() || self.level.is_some()
    }
}

/// Why nothing is read.
#[derive(Debug, Clone, Copy, PartialEq, Eq, Structural)]
pub enum IdentityError {
    /// A pattern was refused.
    Pattern,
}

impl IdentityError {
    /// What a user is told.
    pub fn message(&self) -> (r: &'static str)
        ensures
            r@ == "an identity pattern is invalid"@,
    {
        "an identity pattern is invalid"
    }
}

// ---------------------------------------------------------------- classes

/// The classes of the game.
pub open spec fn classes() -> Seq<Seq<char>> {
    seq![
        "Marauder"@,
        "Ranger"@,
        "Witch"@,
        "Duelist"@,
        "Templar"@,
        "Shadow"@,
        "Scion"@,
    ]
}

/// The ascendancies of the game, each with its class.
pub open spec fn ascendancies() -> Seq<(Seq<char>, Seq<char>)> {
    seq![
        ("Juggernaut"@, "Marauder"@),
        ("Berserker"@, "Marauder"@),
        ("Chieftain"@, "Marauder"@),
        ("Deadeye"@, "Ranger"@),
        ("Raider"@, "Ranger"@),
        ("Pathfinder"@, "Ranger"@),
        ("Necromancer"@, "Witch"@),
        ("Elementalist"@, "Witch"@),
        ("Occultist"@, "Witch"@),
        ("Slayer"@, "Duelist"@),
        ("Gladiator"@, "Duelist"@),
        ("Champion"@, "Duelist"@),
        ("Inquisitor"@, "Templar"@),
        ("Hierophant"@, "Templar"@),
        ("Guardian"@, "Templar"@),
        ("Assassin"@, "Shadow"@),
        ("Saboteur"@, "Shadow"@),
        ("Trickster"@, "Shadow"@),
        ("Ascendant"@, "Scion"@),
    ]
}

fn class_list() -> (r: Vec<&'static str>)
    ensures
        name_views(r@) == classes(),
{
    let r: Vec<&'static str> = vec![
        "Marauder",
        "Ranger",
        "Witch",
        "Duelist",
        "Templar",
        "Shadow",
        "Scion",
    ];
    assert(name_views(r@) =~= classes());
    r
}

fn ascendancy_list() -> (r: Vec<(&'static str, &'static str)>)
    ensures
        pair_texts(r@) == ascendancies(),
{
    let r: Vec<(&'static str, &'static str)> = vec![
        ("Juggernaut", "Marauder"),
        ("Berserker", "Marauder"),
        ("Chieftain", "Marauder"),
        ("Deadeye", "Ranger"),
        ("Raider", "Ranger"),
        ("Pathfinder", "Ranger"),
        ("Necromancer", "Witch"),
        ("Elementalist", "Witch"),
        ("Occultist", "Witch"),
        ("Slayer", "Duelist"),
        ("Gladiator", "Duelist"),
        ("Champion", "Duelist"),
        ("Inquisitor", "Templar"),
        ("Hierophant", "Templar"),
        ("Guardian", "Templar"),
        ("Assassin", "Shadow"),
        ("Saboteur", "Shadow"),
        ("Trickster", "Shadow"),
        ("Ascendant", "Scion"),
    ];
    assert(pair_texts(r@) =~= ascendancies());
    r
}

/// The first of the names that a word spells, whatever the case of its letters.
pub open spec fn spelled(names: Seq<Seq<char>>, word: Seq<char>) -> Option<Seq<char>>
    decreases names.len(),
{
    if names.len() == 0 {
        None
    } else if alike(names[0], word) {
        Some(names[0])
    } else {
        spelled(names.skip(1), word)
    }
}

/// The first of the pairs whose first name a word spells, whatever the case of its letters.
pub open spec fn spelled_pair(pairs: Seq<(Seq<char>, Seq<char>)>, word: Seq<char>) -> Option<
    (Seq<char>, Seq<char>),
>
    decreases pairs.len(),
{
    if pairs.len() == 0 {
        None
    } else if alike(pairs[0].0, word) {
        Some(pairs[0])
    } else {
        spelled_pair(pairs.skip(1), word)
    }
}

fn find_class(word: &str) -> (r: Option<&'static str>)
    ensures
        match r {
            Some(class) => spelled(classes(), word@) == Some(class@),
            None => spelled(classes(), word@) is None,
        },
{
    let list = class_list();
    let ghost all = classes();
    let mut i: usize = 0;
    assert(all.skip(0) =~= all);
    assert(name_views(list@).len() == list@.len());
    while i < list.len()
        invariant
            i <= list@.len(),
            all == name_views(list@),
            all == classes(),
            spelled(all.skip(i as int), word@) == spelled(all, word@),
        decreases list@.len() - i,
    {
        proof {
            assert(all.skip(i as int)[0] == list@[i as int]@);
            assert(all.skip(i as int).skip(1) =~= all.skip(i + 1));
        }
        if same_ignoring_case(list[i], word) {
            return Some(list[i]);
        }
        i = i + 1;
    }
    assert(all.skip(i as int).len() == 0);
    None
}

fn find_ascendancy(word: &str) -> (r: Option<(&'static str, &'static str)>)
    ensures
        match r {
            Some(pair) => spelled_pair(ascendancies(), word@) == Some((pair.0@, pair.1@)),
            None => spelled_pair(ascendancies(), word@) is None,
        },
{
    let list = ascendancy_list();
    let ghost all = ascendancies();
    let mut i: usize = 0;
    assert(all.skip(0) =~= all);
    assert(pair_texts(list@).len() == list@.len());
    while i < list.len()
        invariant
            i <= list@.len(),
            all == pair_texts(list@),
            all == ascendancies(),
            spelled_pair(all.skip(i as int), word@) == spelled_pair(all, word@),
        decreases list@.len() - i,
    {
        proof {
            assert(all.skip(i as int)[0] == (list@[i as int].0@, list@[i as int].1@));
            assert(all.skip(i as int).skip(1) =~= all.skip(i + 1));
        }
        if same_ignoring_case(list[i].0, word) {
            return Some(list[i]);
        }
        i = i + 1;
    }
    assert(all.skip(i as int).len() == 0);
    None
}

/// A value that stays where it is known, or else another one.
pub open spec fn or_else(known: Option<Seq<char>>, other: Seq<char>) -> Option<Seq<char>> {
    if known is Some {
        known
    } else {
        Some(other)
    }
}

/// The identity with the class that a word names, and with the ascendancy that it names and the
/// class of that; what is known stays.
pub open spec fn with_word(id: IdentityTexts, word: Seq<char>) -> IdentityTexts {
    let named = match spelled(classes(), word) {
        Some(class) => IdentityTexts { class_name: or_else(id.class_name, class), ..id },
        None => id,
    };
    match spelled_pair(ascendancies(), word) {
        Some((ascendancy, class)) => IdentityTexts {
            ascendancy: or_else(named.ascendancy, ascendancy),
            class_name: or_else(named.class_name, class),
            ..named
        },
        None => named,
    }
}

/// The identity with what each of the words names.
pub open spec fn with_words(id: IdentityTexts, words: Seq<Seq<char>>) -> IdentityTexts
    decreases words.len(),
{
    if words.len() == 0 {
        id
    } else {
        with_word(with_words(id, words.drop_last()), words.last())
    }
}

fn keep_or_set(known: &mut Option<String>, other: &str)
    ensures
        option_text(*final(known)) == or_else(option_text(*old(known)), other@),
{
    if known.is_none() {
        *known = Some(other.to_string());
    }
}

/// Takes the class and the ascendancy that the words of a text name; what is known stays.
pub fn apply_known_class(identity: &mut DetectedCharacterIdentity, text: &str)
    ensures
        final(identity)@ == with_words(old(identity)@, letter_words_of(text@)),
{
    let words = letter_words(text);
    let ghost all = views(words@);
    let ghost before = identity@;
    let mut i: usize = 0;
    while i < words.len()
        invariant
            i <= words@.len(),
            all == views(words@),
            identity@ == with_words(before, all.take(i as int)),
        decreases words@.len() - i,
    {
        proof {
            assert(all.take(i + 1).drop_last() =~= all.take(i as int));
            assert(all.take(i + 1).last() == words@[i as int]@);
        }
        if let Some(class) = find_class(&words[i]) {
            keep_or_set(&mut identity.class_name, class);
        }
        if let Some(pair) = find_ascendancy(&words[i]) {
            keep_or_set(&mut identity.ascendancy, pair.0);
            keep_or_set(&mut identity.class_name, pair.1);
        }
        i = i + 1;
    }
    assert(all.take(i as int) =~= all);
}

// ---------------------------------------------------------------- patterns

/// A value behind its label, alone in a line.
pub open spec fn labelled_pattern(label: Seq<char>, value: Seq<char>) -> Seq<char> {
    r"(?im)^\s*"@ + label + r"\s*[:\-]\s*("@ + value + r")\s*$"@
}

/// A level behind its label.
pub const LEVEL: &'static str = r"(?im)^\s*Level\s*[:\-]?\s*([0-9]{1,3})\b";

/// A name, a level and what follows in one line.
pub const COMPACT: &'static str = r"(?im)^\s*([A-Za-z][A-Za-z0-9_'\-]{1,39})\s+(?:[-·|]\s*)?Level\s+([0-9]{1,3})\b\s*(.*)$";

/// The first matches of the patterns that tell who a character is.
#[derive(Debug, Clone, PartialEq, Eq)]
pub struct IdentityMatches {
    pub name: Option<Vec<Option<String>>>,
    pub class_name: Option<Vec<Option<String>>>,
    pub ascendancy: Option<Vec<Option<String>>>,
    pub league: Option<Vec<Option<String>>>,
    pub level: Option<Vec<Option<String>>>,
    pub compact: Option<Vec<Option<String>>>,
}

/// The texts of [`IdentityMatches`].
pub struct IdentityMatchTexts {
    pub name: Option<Seq<Option<Seq<char>>>>,
    pub class_name: Option<Seq<Option<Seq<char>>>>,
    pub ascendancy: Option<Seq<Option<Seq<char>>>>,
    pub league: Option<Seq<Option<Seq<char>>>>,
    pub level: Option<Seq<Option<Seq<char>>>>,
    pub compact: Option<Seq<Option<Seq<char>>>>,
}

impl View for IdentityMatches {
    type V = IdentityMatchTexts;

    open spec fn view(&self) -> IdentityMatchTexts {
        IdentityMatchTexts {
            name: found_texts(self.name),
            class_name: found_texts(self.class_name),
            ascendancy: found_texts(self.ascendancy),
            league: found_texts(self.league),
            level: found_texts(self.level),
            compact: found_texts(self.compact),
        }
    }
}

/// The pattern of a line that tells the name.
pub open spec fn name_pattern() -> Seq<char> {
    labelled_pattern(r"(?:Character\s+)?Name"@, r"[A-Za-z][A-Za-z0-9_'\-]{1,39}"@)
}

/// The pattern of a line that tells the class.
pub open spec fn class_pattern() -> Seq<char> {
    labelled_pattern(r"Class"@, r"[A-Za-z][A-Za-z ]{2,30}"@)
}

/// The pattern of a line that tells the ascendancy.
pub open spec fn ascendancy_pattern() -> Seq<char> {
    labelled_pattern(r"Ascendancy"@, r"[A-Za-z][A-Za-z ]{2,30}"@)
}

/// The pattern of a line that tells the league.
pub open spec fn league_pattern() -> Seq<char> {
    labelled_pattern(r"League"@, r"[A-Za-z0-9][A-Za-z0-9 '\-]{1,40}"@)
}

/// The first matches of the patterns in a text; nothing where a pattern is refused.
pub open spec fn identity_matches_in(input: Seq<char>) -> Option<IdentityMatchTexts> {
    let name = first_match(name_pattern(), input);
    let class_name = first_match(class_pattern(), input);
    let ascendancy = first_match(ascendancy_pattern(), input);
    let league = first_match(league_pattern(), input);
    let level = first_match(LEVEL@, input);
    let compact = first_match(COMPACT@, input);
    if name is Some && class_name is Some && ascendancy is Some && league is Some && level is Some
        && compact is Some {
        Some(
            IdentityMatchTexts {
                name: name->0,
                class_name: class_name->0,
                ascendancy: ascendancy->0,
                league: league->0,
                level: level->0,
                compact: compact->0,
            },
        )
    } else {
        None
    }
}

fn find_labelled(input: &str, label: &str, value: &str) -> (r: Option<Option<Vec<Option<String>>>>)
    ensures
        match r {
            Some(found) => first_match(labelled_pattern(label@, value@), input@) == Some(
                found_texts(found),
            ),
            None => first_match(labelled_pattern(label@, value@), input@) is None,
        },
{
    let mut pattern = r"(?im)^\s*".to_string();
    pattern.append(label);
    pattern.append(r"\s*[:\-]\s*(");
    pattern.append(value);
    pattern.append(r")\s*$");
    find(&pattern, input).ok()
}

fn find_identity(input: &str) -> (r: Option<IdentityMatches>)
    ensures
        match r {
            Some(m) => identity_matches_in(input@) == Some(m@),
            None => identity_matches_in(input@) is None,
        },
{
    Some(
        IdentityMatches {
            name: find_labelled(
                input,
                r"(?:Character\s+)?Name",
                r"[A-Za-z][A-Za-z0-9_'\-]{1,39}",
            )?,
            class_name: find_labelled(input, r"Class", r"[A-Za-z][A-Za-z ]{2,30}")?,
            ascendancy: find_labelled(input, r"Ascendancy", r"[A-Za-z][A-Za-z ]{2,30}")?,
            league: find_labelled(input, r"League", r"[A-Za-z0-9][A-Za-z0-9 '\-]{1,40}")?,
            level: find(LEVEL, input).ok()?,
            compact: find(COMPACT, input).ok()?,
        },
    )
}

// ---------------------------------------------------------------- the identity

/// The value that a match holds, without the white space around it.
pub open spec fn labelled(found: Option<Seq<Option<Seq<char>>>>) -> Option<Seq<char>> {
    match captured_in(found) {
        Some(value) => Some(trimmed(value)),
        None => None,
    }
}

/// The value that a match holds, without the white space around it.
pub fn labelled_text(found: &Option<Vec<Option<String>>>) -> (r: Option<String>)
    ensures
        option_text(r) == labelled(found_texts(*found)),
{
    match captured(found) {
        Some(value) => Some(trim(value).to_string()),
        None => None,
    }
}

/// The level that a text writes, where it is one that a character can have.
pub open spec fn level_of(text: Option<Seq<char>>) -> Option<int> {
    match text {
        Some(text) => match unsigned_in(text, u32::MAX as int) {
            Some(level) => if 1 <= level <= 100 {
                Some(level)
            } else {
                None
            },
            None => None,
        },
        None => None,
    }
}

fn read_level(text: Option<&str>) -> (r: Option<u32>)
    ensures
        match r {
            Some(level) => text is Some && level_of(Some(text->0@)) == Some(level as int),
            None => text is Some ==> level_of(Some(text->0@)) is None,
        },
{
    match text {
        Some(text) => match parse_u32(text) {
            Some(level) => if 1 <= level && level <= 100 {
                Some(level)
            } else {
                None
            },
            None => None,
        },
        None => None,
    }
}

/// The identity with what a line tells that holds name, level and class together; what is known
/// stays.
pub open spec fn with_compact(
    id: IdentityTexts,
    found: Option<Seq<Option<Seq<char>>>>,
) -> IdentityTexts {
    match found {
        None => id,
        Some(groups) => {
            let named = IdentityTexts {
                name: match group_at(groups, 1) {
                    Some(name) => or_else(id.name, trimmed(name)),
                    None => id.name,
                },
                level: if id.level is Some {
                    id.level
                } else {
                    level_of(group_at(groups, 2))
                },
                ..id
            };
            match group_at(groups, 3) {
                Some(rest) => with_words(named, letter_words_of(trimmed(rest))),
                None => named,
            }
        },
    }
}

/// The identity with the classes that the lines name.
pub open spec fn with_lines(id: IdentityTexts, lines: Seq<Seq<char>>) -> IdentityTexts
    decreases lines.len(),
{
    if lines.len() == 0 {
        id
    } else {
        with_words(
            with_lines(id, lines.drop_last()),
            letter_words_of(trimmed(lines.last())),
        )
    }
}

/// The identity that the matches tell: first what stands behind labels, then the compact line, then
/// every class that is named anywhere.
pub open spec fn identity_of(m: IdentityMatchTexts, input: Seq<char>) -> IdentityTexts {
    let told = IdentityTexts {
        name: labelled(m.name),
        class_name: labelled(m.class_name),
        ascendancy: labelled(m.ascendancy),
        league: labelled(m.league),
        level: level_of(captured_in(m.level)),
    };
    with_lines(with_compact(told, m.compact), lines_of(input))
}

/// The identity that a text tells.
pub open spec fn identity_in(input: Seq<char>) -> Result<IdentityTexts, IdentityError> {
    match identity_matches_in(input) {
        None => Err(IdentityError::Pattern),
        Some(m) => Ok(identity_of(m, input)),
    }
}

/// The identity that the matches in a text tell.
pub fn identity_from_matches(m: &IdentityMatches, input: &str) -> (r: DetectedCharacterIdentity)
    ensures
        r@ == identity_of(m@, input@),
{
    let mut identity = DetectedCharacterIdentity {
        name: labelled_text(&m.name),
        class_name: labelled_text(&m.class_name),
        ascendancy: labelled_text(&m.ascendancy),
        league: labelled_text(&m.league),
        level: read_level(captured(&m.level)),
    };
    let ghost told = identity@;
    if let Some(groups) = &m.compact {
        if let Some(name) = group(groups, 1) {
            keep_or_set(&mut identity.name, trim(name));
        }
        if identity.level.is_none() {
            identity.level = read_level(group(groups, 2));
        }
        if let Some(rest) = group(groups, 3) {
            apply_known_class(&mut identity, trim(rest));
        }
    }
    assert(identity@ == with_compact(told, m@.compact));
    let list = lines(input);
    let ghost all = views(list@);
    let ghost before = identity@;
    let mut i: usize = 0;
    while i < list.len()
        invariant
            i <= list@.len(),
            all == views(list@),
            identity@ == with_lines(before, all.take(i as int)),
        decreases list@.len() - i,
    {
        proof {
            assert(all.take(i + 1).drop_last() =~= all.take(i as int));
            assert(all.take(i + 1).last() == list@[i as int]@);
        }
        apply_known_class(&mut identity, trim(&list[i]));
        i = i + 1;
    }
    assert(all.take(i as int) =~= all);
    identity
}

/// Who a character is, as far as a text tells.
pub fn parse_character_identity_text(input: &str) -> (r: Result<
    DetectedCharacterIdentity,
    IdentityError,
>)
    ensures
        match r {
            Ok(identity) => identity_in(input@) == Ok::<IdentityTexts, IdentityError>(identity@),
            Err(e) => identity_in(input@) == Err::<IdentityTexts, IdentityError>(e),
        },
{
    match find_identity(input) {
        None => Err(IdentityError::Pattern),
        Some(m) => Ok(identity_from_matches(&m, input)),
    }
}

// ---------------------------------------------------------------- laws

proof fn lemma_words_keep(id: IdentityTexts, words: Seq<Seq<char>>)
    ensures
        with_words(id, words).name == id.name,
        with_words(id, words).league == id.league,
        with_words(id, words).level == id.level,
        id.class_name is Some ==> with_words(id, words).class_name == id.class_name,
        id.ascendancy is Some ==> with_words(id, words).ascendancy == id.ascendancy,
    decreases words.len(),
{
    if words.len() > 0 {
        lemma_words_keep(id, words.drop_last());
    }
}

proof fn lemma_lines_keep(id: IdentityTexts, lines: Seq<Seq<char>>)
    ensures
        with_lines(id, lines).name == id.name,
        with_lines(id, lines).league == id.league,
        with_lines(id, lines).level == id.level,
        id.class_name is Some ==> with_lines(id, lines).class_name == id.class_name,
        id.ascendancy is Some ==> with_lines(id, lines).ascendancy == id.ascendancy,
    decreases lines.len(),
{
    if lines.len() > 0 {
        lemma_lines_keep(id, lines.drop_last());
        lemma_words_keep(
            with_lines(id, lines.drop_last()),
            letter_words_of(trimmed(lines.last())),
        );
    }
}

/// An ascendancy that words name comes with a class.
pub proof fn a_named_ascendancy_has_a_class(id: IdentityTexts, words: Seq<Seq<char>>)
    requires
        id.ascendancy is None,
    ensures
        with_words(id, words).ascendancy is Some ==> with_words(id, words).class_name is Some,
    decreases words.len(),
{
    if words.len() > 0 {
        a_named_ascendancy_has_a_class(id, words.drop_last());
    }
}

/// What stands behind a label is never replaced by what the rest of the text tells.
pub proof fn labels_decide(m: IdentityMatchTexts, input: Seq<char>)
    ensures
        labelled(m.name) is Some ==> identity_of(m, input).name == labelled(m.name),
        labelled(m.class_name) is Some ==> identity_of(m, input).class_name == labelled(
            m.class_name,
        ),
        labelled(m.ascendancy) is Some ==> identity_of(m, input).ascendancy == labelled(
            m.ascendancy,
        ),
        identity_of(m, input).league == labelled(m.league),
        level_of(captured_in(m.level)) is Some ==> identity_of(m, input).level == level_of(
            captured_in(m.level),
        ),
{
    let told = IdentityTexts {
        name: labelled(m.name),
        class_name: labelled(m.class_name),
        ascendancy: labelled(m.ascendancy),
        league: labelled(m.league),
        level: level_of(captured_in(m.level)),
    };
    lemma_compact_keeps(told, m.compact);
    lemma_lines_keep(with_compact(told, m.compact), lines_of(input));
}

proof fn lemma_compact_keeps(id: IdentityTexts, found: Option<Seq<Option<Seq<char>>>>)
    ensures
        id.name is Some ==> with_compact(id, found).name == id.name,
        id.class_name is Some ==> with_compact(id, found).class_name == id.class_name,
        id.ascendancy is Some ==> with_compact(id, found).ascendancy == id.ascendancy,
        with_compact(id, found).league == id.league,
        id.level is Some ==> with_compact(id, found).level == id.level,
        id.level is None ==> (with_compact(id, found).level matches Some(level) ==> 1 <= level
            <= 100),
{
    if let Some(groups) = found {
        let named = IdentityTexts {
            name: match group_at(groups, 1) {
                Some(name) => or_else(id.name, trimmed(name)),
                None => id.name,
            },
            level: if id.level is Some {
                id.level
            } else {
                level_of(group_at(groups, 2))
            },
            ..id
        };
        if let Some(rest) = group_at(groups, 3) {
            lemma_words_keep(named, letter_words_of(trimmed(rest)));
        }
    }
}

/// A level that is told is one that a character can have.
pub proof fn levels_are_in_range(m: IdentityMatchTexts, input: Seq<char>)
    ensures
        identity_of(m, input).level matches Some(level) ==> 1 <= level <= 100,
{
    let told = IdentityTexts {
        name: labelled(m.name),
        class_name: labelled(m.class_name),
        ascendancy: labelled(m.ascendancy),
        league: labelled(m.league),
        level: level_of(captured_in(m.level)),
    };
    lemma_compact_keeps(told, m.compact);
    lemma_lines_keep(with_compact(told, m.compact), lines_of(input));
}

} // verus!
