//! The texts that the game copies for a gem.

use vstd::prelude::*;
use vstd::string::*;
use crate::character::CapturedGem;
use crate::item_text::{
    can_name, find_line, first_line_from, is_name, number_in, parse_number, prefixed,
    prefixed_value, trim_all, trimmed_lines,
};
use crate::number::{parse_u32, unsigned_in};
use crate::text::{
    contains, first_word, first_word_of, holds, lines, same_text, split, split_at_each, trim,
    trimmed, trimming_twice_is_trimming_once, views,
};

verus! {

/// Why a text is no gem.
#[derive(Debug, Clone, Copy, PartialEq, Eq, Structural)]
pub enum GemTextError {
    /// Nothing but white space was given.
    NoText,
    /// No line tells the rarity.
    NoRarity,
    /// The line behind the rarity holds no name.
    NoName,
}

/// The texts and numbers of a gem.
pub struct GemContent {
    pub group: Seq<char>,
    pub name: Seq<char>,
    pub level: int,
    pub quality: int,
    pub tags: Seq<Seq<char>>,
    pub raw_text: Seq<char>,
}

impl View for CapturedGem {
    type V = GemContent;

    open spec fn view(&self) -> GemContent {
        GemContent {
            group: self.group@,
            name: self.name@,
            level: self.level as int,
            quality: self.quality as int,
            tags: views(self.tags@),
            raw_text: self.raw_text@,
        }
    }
}

/// The level that the lines tell, one where they tell none.
pub open spec fn gem_level(lines: Seq<Seq<char>>) -> int {
    match prefixed(lines, "Level:"@) {
        Some(value) => match first_word_of(value) {
            Some(word) => match unsigned_in(word, u32::MAX as int) {
                Some(level) => level,
                None => 1,
            },
            None => 1,
        },
        None => 1,
    }
}

/// The quality that the lines tell, zero where they tell none.
pub open spec fn gem_quality(lines: Seq<Seq<char>>) -> int {
    match prefixed(lines, "Quality:"@) {
        Some(value) => match number_in(value) {
            Some(quality) => quality,
            None => 0,
        },
        None => 0,
    }
}

/// Which line, from line `i` on, is the first that parts the text.
pub open spec fn separator_from(lines: Seq<Seq<char>>, i: int) -> Option<int>
    decreases lines.len() - i,
{
    if i < 0 || i >= lines.len() {
        None
    } else if lines[i] == "--------"@ {
        Some(i)
    } else {
        separator_from(lines, i + 1)
    }
}

/// The tags: the parts between commas in the line behind the first separator. A line without a
/// comma holds no tags.
pub open spec fn gem_tags(lines: Seq<Seq<char>>) -> Seq<Seq<char>> {
    match separator_from(lines, 0) {
        Some(i) => if i + 1 < lines.len() && holds(lines[i + 1], ","@) {
            split_at_each(lines[i + 1], ',').map_values(|tag: Seq<char>| trimmed(tag))
        } else {
            Seq::empty()
        },
        None => Seq::empty(),
    }
}

/// The gem that a text tells of.
pub open spec fn gem_in(group: Seq<char>, input: Seq<char>) -> Result<GemContent, GemTextError> {
    let text = trimmed(input);
    let lines = trimmed_lines(text);
    if text.len() == 0 {
        Err(GemTextError::NoText)
    } else {
        match first_line_from(lines, "Rarity:"@, 0) {
            None => Err(GemTextError::NoRarity),
            Some(i) => if i + 1 < lines.len() && can_name(lines[i + 1]) {
                Ok(
                    GemContent {
                        group: trimmed(group),
                        name: lines[i + 1],
                        level: gem_level(lines),
                        quality: gem_quality(lines),
                        tags: gem_tags(lines),
                        raw_text: text,
                    },
                )
            } else {
                Err(GemTextError::NoName)
            },
        }
    }
}

fn read_level(lines: &Vec<String>) -> (level: u32)
    ensures
        level == gem_level(views(lines@)),
{
    match prefixed_value(lines, "Level:") {
        Some(value) => match first_word(&value) {
            Some(word) => match parse_u32(word) {
                Some(level) => level,
                None => 1,
            },
            None => 1,
        },
        None => 1,
    }
}

fn read_quality(lines: &Vec<String>) -> (quality: i32)
    ensures
        quality == gem_quality(views(lines@)),
{
    match prefixed_value(lines, "Quality:") {
        Some(value) => match parse_number(&value) {
            Some(quality) => quality,
            None => 0,
        },
        None => 0,
    }
}

fn find_separator(lines: &Vec<String>) -> (r: Option<usize>)
    ensures
        match r {
            Some(i) => i < lines@.len() && separator_from(views(lines@), 0) == Some(i as int),
            None => separator_from(views(lines@), 0) is None,
        },
{
    let mut i: usize = 0;
    while i < lines.len()
        invariant
            i <= lines@.len(),
            separator_from(views(lines@), i as int) == separator_from(views(lines@), 0),
        decreases lines@.len() - i,
    {
        if same_text(&lines[i], "--------") {
            return Some(i);
        }
        i = i + 1;
    }
    None
}

fn read_tags(lines: &Vec<String>) -> (r: Vec<String>)
    ensures
        views(r@) == gem_tags(views(lines@)),
{
    let count: usize = lines.len();
    match find_separator(lines) {
        Some(i) => {
            if i + 1 < count && contains(&lines[i + 1], ",") {
                return trim_all(&split(&lines[i + 1], ','));
            }
        },
        None => {},
    }
    let none: Vec<String> = Vec::new();
    assert(views(none@) =~= Seq::empty());
    none
}

/// The gem that a text tells of.
pub fn parse_gem_text(group: &str, input: &str) -> (r: Result<CapturedGem, GemTextError>)
    ensures
        match r {
            Ok(gem) => gem_in(group@, input@) == Ok::<GemContent, GemTextError>(gem@),
            Err(e) => gem_in(group@, input@) == Err::<GemContent, GemTextError>(e),
        },
{
    let text = trim(input);
    if text.is_empty() {
        return Err(GemTextError::NoText);
    }
    let lines = trim_all(&lines(text));
    assert(views(lines@) =~= trimmed_lines(text@));
    match find_line(&lines, "Rarity:") {
        None => Err(GemTextError::NoRarity),
        Some(i) => {
            assert(i < lines.len());
            if i + 1 < lines.len() && is_name(&lines[i + 1]) {
                assert(views(lines@)[i + 1] == lines@[i + 1]@);
                Ok(
                    CapturedGem {
                        group: trim(group).to_string(),
                        name: lines[i + 1].clone(),
                        level: read_level(&lines),
                        quality: read_quality(&lines),
                        tags: read_tags(&lines),
                        raw_text: text.to_string(),
                    },
                )
            } else {
                Err(GemTextError::NoName)
            }
        },
    }
}

/// White space around the text of a gem does not matter.
pub proof fn space_around_a_gem_does_not_matter(group: Seq<char>, input: Seq<char>)
    ensures
        gem_in(group, trimmed(input)) == gem_in(group, input),
        gem_in(trimmed(group), input) == gem_in(group, input),
{
    trimming_twice_is_trimming_once(input);
    trimming_twice_is_trimming_once(group);
}

impl GemTextError {
    /// What a user is told.
    pub open spec fn message_text(self) -> Seq<char> {
        match self {
            GemTextError::NoText => "copy a skill or support gem in Path of Exile first"@,
            GemTextError::NoRarity => "this does not look like copied Path of Exile gem text"@,
            GemTextError::NoName => "gem name is missing"@,
        }
    }

    /// What a user is told.
    pub fn message(&self) -> (r: &'static str)
        ensures
            r@ == self.message_text(),
    {
        match self {
            GemTextError::NoText => "copy a skill or support gem in Path of Exile first",
            GemTextError::NoRarity => "this does not look like copied Path of Exile gem text",
            GemTextError::NoName => "gem name is missing",
        }
    }
}

} // verus!
