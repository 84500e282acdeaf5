//! What is said of texts: parts of them, white space around them, and the lines and words in them.

use vstd::prelude::*;
use vstd::string::*;
use crate::chars::{is_letter, is_white, lower};
use crate::item_text::trimmed_lines;
use crate::order::precedes;
use crate::text::{
    alike, begins_with, behind, cut, ends_in, filled, filled_lines, first_of, first_word_of, found,
    found_from, holds, joined, letter_run, letter_words_of, lines_of, lowered, occurs_at, present,
    replaced, run_before, split_at_each, trimmed, trimmed_end, trimmed_end_of, trimmed_start,
    without_char, without_prefixes, without_white, word_length,
};

verus! {

// ---------------------------------------------------------------- parts

proof fn lemma_found_if_it_stands(s: Seq<char>, part: Seq<char>, i: int, k: int)
    requires
        0 <= i <= k,
        occurs_at(s, part, k),
    ensures
        found_from(s, part, i) matches Some(j) && i <= j <= k && occurs_at(s, part, j),
    decreases k - i,
{
    if !occurs_at(s, part, i) {
        lemma_found_if_it_stands(s, part, i + 1, k);
    }
}

proof fn lemma_found_stands(s: Seq<char>, part: Seq<char>, i: int)
    requires
        0 <= i,
    ensures
        found_from(s, part, i) matches Some(j) ==> i <= j && occurs_at(s, part, j),
    decreases s.len() + 1 - i,
{
    if i + part.len() <= s.len() && !occurs_at(s, part, i) {
        lemma_found_stands(s, part, i + 1);
    }
}

/// A text holds whatever stands between two other parts of it.
pub proof fn a_text_holds_its_parts(front: Seq<char>, part: Seq<char>, back: Seq<char>)
    ensures
        holds(front + part + back, part),
{
    let s = front + part + back;
    let k = front.len() as int;
    assert(s.subrange(k, k + part.len() as int) =~= part);
    lemma_found_if_it_stands(s, part, 0, k);
}

/// What a text holds stands between two other parts of it.
pub proof fn what_a_text_holds_is_a_part(s: Seq<char>, part: Seq<char>)
    requires
        holds(s, part),
    ensures
        exists|front: Seq<char>, back: Seq<char>| s == #[trigger] (front + part + back),
{
    lemma_found_stands(s, part, 0);
    let k = found(s, part)->0;
    assert(s =~= s.take(k) + part + s.skip(k + part.len()));
}

/// A text is cut at a part that stands nowhere further in front, and only where it holds the part.
pub proof fn a_text_is_cut_where_the_part_first_stands(s: Seq<char>, part: Seq<char>)
    ensures
        cut(s, part) is Some <==> holds(s, part),
        cut(s, part) matches Some((front, back)) ==> s == front + part + back && forall|k: int|
            0 <= k < front.len() ==> !begins_with(#[trigger] s.skip(k), part),
{
    lemma_found_stands(s, part, 0);
    if let Some(k) = found(s, part) {
        assert(s =~= s.take(k) + part + s.skip(k + part.len()));
        assert forall|j: int| 0 <= j < k implies !begins_with(#[trigger] s.skip(j), part) by {
            if begins_with(s.skip(j), part) {
                assert(s.subrange(j, j + part.len() as int) =~= s.skip(j).subrange(
                    0,
                    part.len() as int,
                ));
                lemma_found_if_it_stands(s, part, 0, j);
            }
        }
    }
}

/// A text begins with its first part, which is taken off to get what stands behind it.
pub proof fn a_text_begins_with_its_front(front: Seq<char>, back: Seq<char>)
    ensures
        begins_with(front + back, front),
        behind(front + back, front) == Some(back),
        ends_in(front + back, back),
{
    let s = front + back;
    assert(s.subrange(0, front.len() as int) =~= front);
    assert(s.skip(front.len() as int) =~= back);
    assert(s.subrange(s.len() - back.len(), s.len() as int) =~= back);
}

/// What a text begins with or ends in is a part of it, at that end.
pub proof fn what_a_text_begins_with_is_its_front(s: Seq<char>, part: Seq<char>)
    ensures
        begins_with(s, part) ==> s == part + s.skip(part.len() as int),
        behind(s, part) is Some <==> begins_with(s, part),
        behind(s, part) matches Some(back) ==> s == part + back,
        ends_in(s, part) ==> s == s.take(s.len() - part.len()) + part,
{
    if begins_with(s, part) {
        assert(s =~= part + s.skip(part.len() as int));
    }
    if ends_in(s, part) {
        assert(s =~= s.take(s.len() - part.len()) + part);
    }
}

/// Copies of a prefix are taken off until the text no more begins with it.
pub proof fn all_copies_of_a_prefix_are_taken_off(prefix: Seq<char>, rest: Seq<char>)
    requires
        prefix.len() > 0,
    ensures
        without_prefixes(prefix + rest, prefix) == without_prefixes(rest, prefix),
        !begins_with(rest, prefix) ==> without_prefixes(rest, prefix) == rest,
{
    a_text_begins_with_its_front(prefix, rest);
    assert((prefix + rest).skip(prefix.len() as int) =~= rest);
}

// ---------------------------------------------------------------- characters

/// Which characters are white space.
pub proof fn white_space_is(c: char)
    ensures
        is_white(c) <==> c == '\t' || c == '\n' || c == '\u{b}' || c == '\u{c}' || c == '\r' || c
            == ' ' || c == '\u{85}' || c == '\u{a0}' || c == '\u{1680}' || ('\u{2000}' <= c
            <= '\u{200a}') || c == '\u{2028}' || c == '\u{2029}' || c == '\u{202f}' || c
            == '\u{205f}' || c == '\u{3000}',
        is_letter(c) <==> 'a' <= c <= 'z' || 'A' <= c <= 'Z',
{
}

/// A small letter stands for itself and for its capital, and every other character for itself.
pub proof fn small_letters_stand_for_capitals(s: Seq<char>, i: int)
    requires
        0 <= i < s.len(),
    ensures
        lowered(s).len() == s.len(),
        !('A' <= s[i] <= 'Z') ==> lowered(s)[i] == s[i],
        'A' <= s[i] <= 'Z' ==> 'a' <= lowered(s)[i] <= 'z' && lowered(s)[i] as u32 - 'a' as u32
            == s[i] as u32 - 'A' as u32,
{
    lemma_lower(s[i]);
}

proof fn lemma_lower(c: char)
    ensures
        !('A' <= c <= 'Z') ==> lower(c) == c,
        'A' <= c <= 'Z' ==> 'a' <= lower(c) <= 'z' && lower(c) as u32 - 'a' as u32 == c as u32
            - 'A' as u32,
{
}

/// Texts are alike where they have the same letters in whatever case.
pub proof fn alike_texts_have_the_same_small_letters(a: Seq<char>, b: Seq<char>)
    ensures
        alike(a, b) <==> lowered(a) == lowered(b),
        alike(a, lowered(a)),
{
    assert forall|i: int| 0 <= i < a.len() implies lowered(lowered(a))[i] == lowered(a)[i] by {
        lemma_lower(a[i]);
        lemma_lower(lowered(a)[i]);
    }
    assert(lowered(lowered(a)) =~= lowered(a));
}

/// Replacing a character touches no other.
pub proof fn one_character_is_replaced(s: Seq<char>, from: char, to: char, i: int)
    requires
        0 <= i < s.len(),
    ensures
        replaced(s, from, to).len() == s.len(),
        replaced(s, from, to)[i] == if s[i] == from {
            to
        } else {
            s[i]
        },
{
}

/// A character is taken out of a text wherever it stands, and nothing else is.
pub proof fn one_character_is_taken_out(a: Seq<char>, b: Seq<char>, c: char)
    ensures
        without_char(a + b, c) == without_char(a, c) + without_char(b, c),
        without_char(seq![c], c) == Seq::<char>::empty(),
        !a.contains(c) ==> without_char(a, c) == a,
        !without_char(a, c).contains(c),
    decreases b.len(),
{
    assert(seq![c].drop_last() =~= Seq::<char>::empty());
    assert(without_char(Seq::<char>::empty(), c) =~= Seq::<char>::empty());
    lemma_without(a, c);
    if b.len() == 0 {
        assert(a + b =~= a);
        assert(without_char(b, c) =~= Seq::<char>::empty());
        assert(without_char(a, c) + Seq::<char>::empty() =~= without_char(a, c));
    } else {
        one_character_is_taken_out(a, b.drop_last(), c);
        assert((a + b).drop_last() =~= a + b.drop_last());
        assert((a + b).last() == b.last());
        if b.last() != c {
            assert(without_char(a, c) + without_char(b.drop_last(), c).push(b.last()) =~= (
            without_char(a, c) + without_char(b.drop_last(), c)).push(b.last()));
        }
    }
}

proof fn lemma_without(a: Seq<char>, c: char)
    ensures
        !a.contains(c) ==> without_char(a, c) == a,
        !without_char(a, c).contains(c),
    decreases a.len(),
{
    if a.len() > 0 {
        let init = a.drop_last();
        lemma_without(init, c);
        if !a.contains(c) {
            assert(a.contains(a.last()));
            assert forall|x: char| init.contains(x) implies a.contains(x) by {
                let k = choose|k: int| 0 <= k < init.len() && init[k] == x;
                assert(a[k] == x);
            }
            assert(init.push(a.last()) =~= a);
        }
    }
}

/// White space is taken out of a text wherever it stands, and nothing else is.
pub proof fn white_space_is_taken_out(a: Seq<char>, c: char)
    ensures
        without_white(a.push(c)) == if is_white(c) {
            without_white(a)
        } else {
            without_white(a).push(c)
        },
        without_white(Seq::<char>::empty()) == Seq::<char>::empty(),
{
    assert(a.push(c).drop_last() =~= a);
}

// ---------------------------------------------------------------- white space at the ends

/// Whether a text is nothing but white space.
pub open spec fn all_white(s: Seq<char>) -> bool {
    forall|i: int| 0 <= i < s.len() ==> is_white(#[trigger] s[i])
}

/// Whether a text has no white space at its ends.
pub open spec fn is_tight(s: Seq<char>) -> bool {
    s.len() > 0 ==> !is_white(s[0]) && !is_white(s.last())
}

proof fn lemma_start(pad: Seq<char>, s: Seq<char>)
    requires
        all_white(pad),
        s.len() > 0 ==> !is_white(s[0]),
    ensures
        trimmed_start(pad + s) == s,
    decreases pad.len(),
{
    if pad.len() > 0 {
        assert((pad + s)[0] == pad[0]);
        assert((pad + s).skip(1) =~= pad.skip(1) + s);
        lemma_start(pad.skip(1), s);
    } else {
        assert(pad + s =~= s);
    }
}

proof fn lemma_end(s: Seq<char>, pad: Seq<char>)
    requires
        all_white(pad),
        s.len() > 0 ==> !is_white(s.last()),
    ensures
        trimmed_end(s + pad) == s,
    decreases pad.len(),
{
    if pad.len() > 0 {
        assert((s + pad).last() == pad.last());
        assert((s + pad).drop_last() =~= s + pad.drop_last());
        lemma_end(s, pad.drop_last());
    } else {
        assert(s + pad =~= s);
    }
}

proof fn lemma_start_white(pad: Seq<char>)
    requires
        all_white(pad),
    ensures
        trimmed_start(pad) == Seq::<char>::empty(),
    decreases pad.len(),
{
    if pad.len() > 0 {
        lemma_start_white(pad.skip(1));
    }
}

/// White space at both ends of a text is taken off, and nothing else.
pub proof fn white_space_at_the_ends_is_taken_off(front: Seq<char>, s: Seq<char>, back: Seq<char>)
    requires
        all_white(front),
        all_white(back),
        is_tight(s),
    ensures
        trimmed(front + s + back) == s,
        trimmed(s) == s,
{
    if s.len() > 0 {
        assert(front + s + back =~= front + (s + back));
        assert((s + back)[0] == s[0]);
        lemma_start(front, s + back);
        lemma_end(s, back);
        lemma_start(Seq::empty(), s);
        assert(Seq::<char>::empty() + s =~= s);
        lemma_end(s, Seq::empty());
        assert(s + Seq::<char>::empty() =~= s);
    } else {
        let pad = front + s + back;
        assert forall|i: int| 0 <= i < pad.len() implies is_white(#[trigger] pad[i]) by {
            if i < front.len() {
                assert(pad[i] == front[i]);
            } else {
                assert(pad[i] == back[i - front.len()]);
            }
        }
        lemma_start_white(pad);
        assert(s =~= Seq::<char>::empty());
    }
}

proof fn lemma_start_splits(s: Seq<char>)
    ensures
        exists|front: Seq<char>| all_white(front) && s == #[trigger] (front + trimmed_start(s)),
        trimmed_start(s).len() > 0 ==> !is_white(trimmed_start(s)[0]),
    decreases s.len(),
{
    if s.len() > 0 && is_white(s[0]) {
        lemma_start_splits(s.skip(1));
        let front = choose|front: Seq<char>| all_white(front) && s.skip(1) == #[trigger] (front
            + trimmed_start(s.skip(1)));
        let more = seq![s[0]] + front;
        assert forall|i: int| 0 <= i < more.len() implies is_white(#[trigger] more[i]) by {
            if i > 0 {
                assert(more[i] == front[i - 1]);
            }
        }
        let rest = trimmed_start(s.skip(1));
        assert(s =~= seq![s[0]] + s.skip(1));
        assert(seq![s[0]] + (front + rest) =~= more + rest);
        assert(all_white(more) && s == more + trimmed_start(s));
    } else {
        let none = Seq::<char>::empty();
        assert(s =~= none + trimmed_start(s));
        assert(all_white(none) && s == none + trimmed_start(s));
    }
}

proof fn lemma_end_splits(s: Seq<char>)
    ensures
        exists|back: Seq<char>| all_white(back) && s == #[trigger] (trimmed_end(s) + back),
        trimmed_end(s).len() > 0 ==> !is_white(trimmed_end(s).last()) && trimmed_end(s)[0] == s[0],
    decreases s.len(),
{
    if s.len() > 0 && is_white(s.last()) {
        lemma_end_splits(s.drop_last());
        let back = choose|back: Seq<char>| all_white(back) && s.drop_last() == #[trigger] (
        trimmed_end(s.drop_last()) + back);
        let more = back.push(s.last());
        assert forall|i: int| 0 <= i < more.len() implies is_white(#[trigger] more[i]) by {
            if i < back.len() {
                assert(more[i] == back[i]);
            }
        }
        let rest = trimmed_end(s.drop_last());
        assert(s =~= s.drop_last().push(s.last()));
        assert((rest + back).push(s.last()) =~= rest + more);
        assert(all_white(more) && s == trimmed_end(s) + more);
    } else {
        let none = Seq::<char>::empty();
        assert(s =~= trimmed_end(s) + none);
        assert(all_white(none) && s == trimmed_end(s) + none);
    }
}

/// A trimmed text has no white space at its ends, and only white space was around it.
pub proof fn a_trimmed_text_is_tight(s: Seq<char>)
    ensures
        is_tight(trimmed(s)),
        exists|front: Seq<char>, back: Seq<char>|
            all_white(front) && all_white(back) && s == #[trigger] (front + trimmed(s) + back),
{
    let t = trimmed_start(s);
    lemma_start_splits(s);
    lemma_end_splits(t);
    let front = choose|front: Seq<char>| all_white(front) && s == #[trigger] (front + t);
    let back = choose|back: Seq<char>| all_white(back) && t == #[trigger] (trimmed_end(t) + back);
    assert(s =~= front + trimmed(s) + back);
}

/// The characters of a set are taken off the end of a text, and nothing else.
pub proof fn a_set_is_taken_off_the_end(s: Seq<char>, tail: Seq<char>, set: Seq<char>)
    requires
        forall|i: int| 0 <= i < tail.len() ==> set.contains(#[trigger] tail[i]),
        s.len() > 0 ==> !set.contains(s.last()),
    ensures
        trimmed_end_of(s + tail, set) == s,
    decreases tail.len(),
{
    if tail.len() > 0 {
        assert((s + tail).last() == tail.last());
        assert(set.contains(tail[tail.len() - 1]));
        assert((s + tail).drop_last() =~= s + tail.drop_last());
        assert forall|i: int| 0 <= i < tail.drop_last().len() implies set.contains(
            #[trigger] tail.drop_last()[i],
        ) by {
            assert(set.contains(tail[i]));
        }
        a_set_is_taken_off_the_end(s, tail.drop_last(), set);
    } else {
        assert(s + tail =~= s);
    }
}

// ---------------------------------------------------------------- words and lines

proof fn lemma_word(word: Seq<char>, rest: Seq<char>)
    requires
        forall|i: int| 0 <= i < word.len() ==> !is_white(#[trigger] word[i]),
        rest.len() > 0 ==> is_white(rest[0]),
    ensures
        word_length(word + rest) == word.len(),
    decreases word.len(),
{
    if word.len() > 0 {
        assert((word + rest)[0] == word[0]);
        assert((word + rest).skip(1) =~= word.skip(1) + rest);
        assert forall|i: int| 0 <= i < word.skip(1).len() implies !is_white(
            #[trigger] word.skip(1)[i],
        ) by {
            assert(word.skip(1)[i] == word[i + 1]);
        }
        lemma_word(word.skip(1), rest);
    } else {
        assert(word + rest =~= rest);
    }
}

/// The first word of a text stands between the white space in front of it and the white space or the
/// end behind it.
pub proof fn the_first_word_ends_at_white_space(pad: Seq<char>, word: Seq<char>, rest: Seq<char>)
    requires
        all_white(pad),
        word.len() > 0,
        forall|i: int| 0 <= i < word.len() ==> !is_white(#[trigger] word[i]),
        rest.len() > 0 ==> is_white(rest[0]),
    ensures
        first_word_of(pad + word + rest) == Some(word),
{
    assert(pad + word + rest =~= pad + (word + rest));
    assert((word + rest)[0] == word[0]);
    lemma_start(pad, word + rest);
    lemma_word(word, rest);
    assert((word + rest).take(word.len() as int) =~= word);
}

proof fn lemma_run_ends(s: Seq<char>, rest: Seq<char>, c: char)
    requires
        !s.contains(c),
        rest.len() > 0 ==> rest[0] == c,
    ensures
        run_before(s + rest, c) == s.len(),
    decreases s.len(),
{
    if s.len() > 0 {
        assert(s.contains(s[0]));
        assert((s + rest)[0] == s[0]);
        assert((s + rest).skip(1) =~= s.skip(1) + rest);
        assert forall|x: char| s.skip(1).contains(x) implies s.contains(x) by {
            let k = choose|k: int| 0 <= k < s.skip(1).len() && s.skip(1)[k] == x;
            assert(s[k + 1] == x);
        }
        lemma_run_ends(s.skip(1), rest, c);
    } else {
        assert(s + rest =~= rest);
    }
}

/// A text is split at each occurrence of a character: what stands in front of the first one is a
/// part, and the rest is split further.
pub proof fn a_text_is_split_at_each_mark(part: Seq<char>, rest: Seq<char>, c: char)
    requires
        !part.contains(c),
    ensures
        split_at_each(part, c) == seq![part],
        split_at_each(part + seq![c] + rest, c) == seq![part] + split_at_each(rest, c),
{
    let s = part + seq![c] + rest;
    assert(s =~= part + (seq![c] + rest));
    lemma_run_ends(part, seq![c] + rest, c);
    lemma_run_ends(part, Seq::empty(), c);
    assert(part + Seq::<char>::empty() =~= part);
    assert(s.take(part.len() as int) =~= part);
    assert(s.skip(part.len() as int + 1) =~= rest);
}

/// A line ends in a line feed, alone or behind a carriage return; the last line may end with the
/// text.
pub proof fn lines_end_in_line_feeds(line: Seq<char>, rest: Seq<char>)
    requires
        !line.contains('\n'),
    ensures
        lines_of(Seq::<char>::empty()) == Seq::<Seq<char>>::empty(),
        line.len() > 0 ==> lines_of(line) == seq![line],
        line.len() == 0 || line.last() != '\r' ==> lines_of(line + seq!['\n'] + rest) == seq![line]
            + lines_of(rest),
        lines_of(line + seq!['\r', '\n'] + rest) == seq![line] + lines_of(rest),
{
    let s = line + seq!['\n'] + rest;
    assert(s =~= line + (seq!['\n'] + rest));
    lemma_run_ends(line, seq!['\n'] + rest, '\n');
    lemma_run_ends(line, Seq::empty(), '\n');
    assert(line + Seq::<char>::empty() =~= line);
    assert(s.take(line.len() as int) =~= line);
    assert(s.skip(line.len() as int + 1) =~= rest);
    let returned = line.push('\r');
    let t = line + seq!['\r', '\n'] + rest;
    assert(t =~= returned + (seq!['\n'] + rest));
    assert forall|x: char| returned.contains(x) implies x == '\r' || line.contains(x) by {
        let k = choose|k: int| 0 <= k < returned.len() && returned[k] == x;
        if k < line.len() {
            assert(line[k] == x);
        }
    }
    lemma_run_ends(returned, seq!['\n'] + rest, '\n');
    assert(t.take(returned.len() as int) =~= returned);
    assert(t.skip(returned.len() as int + 1) =~= rest);
    assert(returned.drop_last() =~= line);
}

/// A trimmed line is the line without the white space around it, in its place.
pub proof fn lines_are_trimmed_in_their_places(text: Seq<char>, i: int)
    requires
        0 <= i < lines_of(text).len(),
    ensures
        trimmed_lines(text).len() == lines_of(text).len(),
        trimmed_lines(text)[i] == trimmed(lines_of(text)[i]),
{
}

/// The filled lines are the trimmed ones that are not empty, in their order.
pub proof fn empty_lines_are_left_out(lines: Seq<Seq<char>>, line: Seq<char>, text: Seq<char>)
    ensures
        filled_lines(Seq::<Seq<char>>::empty()) == Seq::<Seq<char>>::empty(),
        trimmed(line).len() > 0 ==> filled_lines(lines.push(line)) == filled_lines(lines).push(
            trimmed(line),
        ),
        trimmed(line).len() == 0 ==> filled_lines(lines.push(line)) == filled_lines(lines),
        filled(text) == filled_lines(lines_of(text)),
{
    assert(lines.push(line).drop_last() =~= lines);
}

proof fn lemma_letters(word: Seq<char>, rest: Seq<char>)
    requires
        forall|i: int| 0 <= i < word.len() ==> is_letter(#[trigger] word[i]),
        rest.len() > 0 ==> !is_letter(rest[0]),
    ensures
        letter_run(word + rest) == word.len(),
    decreases word.len(),
{
    if word.len() > 0 {
        assert((word + rest)[0] == word[0]);
        assert((word + rest).skip(1) =~= word.skip(1) + rest);
        assert forall|i: int| 0 <= i < word.skip(1).len() implies is_letter(
            #[trigger] word.skip(1)[i],
        ) by {
            assert(word.skip(1)[i] == word[i + 1]);
        }
        lemma_letters(word.skip(1), rest);
    } else {
        assert(word + rest =~= rest);
    }
}

/// Words of letters are parted by whatever is no letter.
pub proof fn words_are_parted_by_what_is_no_letter(word: Seq<char>, c: char, rest: Seq<char>)
    requires
        forall|i: int| 0 <= i < word.len() ==> is_letter(#[trigger] word[i]),
        !is_letter(c),
    ensures
        letter_words_of(word) == seq![word],
        letter_words_of(word + seq![c] + rest) == seq![word] + letter_words_of(rest),
{
    let s = word + seq![c] + rest;
    assert(s =~= word + (seq![c] + rest));
    lemma_letters(word, seq![c] + rest);
    lemma_letters(word, Seq::empty());
    assert(word + Seq::<char>::empty() =~= word);
    assert(s.take(word.len() as int) =~= word);
    assert(s.skip(word.len() as int + 1) =~= rest);
}

// ---------------------------------------------------------------- lists and order

/// A list is written with the separator between each two texts and nowhere else.
pub proof fn lists_are_written_with_separators(list: Seq<Seq<char>>, text: Seq<char>, sep: Seq<char>)
    ensures
        joined(Seq::<Seq<char>>::empty(), sep) == Seq::<char>::empty(),
        joined(seq![text], sep) == text,
        list.len() > 0 ==> joined(list.push(text), sep) == joined(list, sep) + sep + text,
{
    assert(list.push(text).drop_last() =~= list);
}

/// The texts that are not missing are kept in their order, and no others.
pub proof fn present_texts_are_kept(list: Seq<Option<Seq<char>>>, text: Seq<char>)
    ensures
        present(Seq::<Option<Seq<char>>>::empty()) == Seq::<Seq<char>>::empty(),
        present(list.push(Some(text))) == present(list).push(text),
        present(list.push(None)) == present(list),
{
    assert(list.push(Some(text)).drop_last() =~= list);
    assert(list.push(None).drop_last() =~= list);
}

/// Of a list the first texts are taken, as many as are asked for or as there are.
pub proof fn the_first_texts_are_taken(list: Seq<Seq<char>>, n: nat, i: int)
    ensures
        first_of(list, n as int).len() == if list.len() < n {
            list.len()
        } else {
            n
        },
        0 <= i < first_of(list, n as int).len() ==> first_of(list, n as int)[i] == list[i],
{
}

/// Texts are in the order of the first characters in which they differ, and a text comes before
/// those that it begins.
pub proof fn texts_are_ordered_by_their_first_difference(
    front: Seq<char>,
    a: char,
    x: Seq<char>,
    b: char,
    y: Seq<char>,
)
    ensures
        a < b ==> precedes(front + seq![a] + x, front + seq![b] + y),
        a < b ==> !precedes(front + seq![b] + y, front + seq![a] + x),
        precedes(front, front + seq![b] + y),
        !precedes(front + seq![b] + y, front),
    decreases front.len(),
{
    let left = front + seq![a] + x;
    let right = front + seq![b] + y;
    if front.len() > 0 {
        let f = front.skip(1);
        assert(left.skip(1) =~= f + seq![a] + x);
        assert(right.skip(1) =~= f + seq![b] + y);
        assert(left[0] == front[0] && right[0] == front[0]);
        texts_are_ordered_by_their_first_difference(f, a, x, b, y);
    } else {
        assert(left[0] == a && right[0] == b);
    }
}

} // verus!
