//! Searching, trimming and splitting of text, stated over sequences of characters.

use vstd::prelude::*;
use vstd::string::*;
use crate::chars::{is_letter, is_ascii_letter, is_white, is_whitespace, lower, to_lower};

verus! {

/// `String::push` puts one character behind the text.
pub assume_specification[ String::push ](text: &mut String, c: char)
    ensures
        final(text)@ == old(text)@.push(c),
;

/// The characters of each text in a list.
pub open spec fn views(list: Seq<String>) -> Seq<Seq<char>> {
    list.map_values(|t: String| t@)
}

/// The first texts of a list, `n` of them or all where it has fewer.
pub open spec fn first_of(list: Seq<Seq<char>>, n: int) -> Seq<Seq<char>> {
    if list.len() <= n {
        list
    } else {
        list.take(n)
    }
}

/// The texts of a list that are not missing.
pub open spec fn present(list: Seq<Option<Seq<char>>>) -> Seq<Seq<char>>
    decreases list.len(),
{
    if list.len() == 0 {
        Seq::empty()
    } else {
        match list.last() {
            Some(text) => present(list.drop_last()).push(text),
            None => present(list.drop_last()),
        }
    }
}

/// The characters of borrowed texts.
pub open spec fn name_views(names: Seq<&str>) -> Seq<Seq<char>> {
    names.map_values(|n: &str| n@)
}

/// The texts of a list of pairs.
pub open spec fn pair_texts(pairs: Seq<(&str, &str)>) -> Seq<(Seq<char>, Seq<char>)> {
    pairs.map_values(|p: (&str, &str)| (p.0@, p.1@))
}

/// The characters of a text that may be missing.
pub open spec fn option_text(text: Option<String>) -> Option<Seq<char>> {
    match text {
        Some(text) => Some(text@),
        None => None,
    }
}

/// The characters of `s`, one by one.
pub fn chars_of(s: &str) -> (r: Vec<char>)
    ensures
        r@ == s@,
{
    let mut out: Vec<char> = Vec::new();
    for c in iter: s.chars()
        invariant
            iter.seq() == s@,
            out@ == s@.take(iter.index()),
    {
        out.push(c);
        assert(out@ == s@.take(iter.index() + 1));
    }
    assert(s@.take(s@.len() as int) == s@);
    out
}

/// Whether two texts hold the same characters.
pub fn same_text(a: &str, b: &str) -> (r: bool)
    ensures
        r == (a@ == b@),
{
    let x = chars_of(a);
    let y = chars_of(b);
    if x.len() != y.len() {
        return false;
    }
    let mut i: usize = 0;
    while i < x.len()
        invariant
            i <= x.len(),
            x@ == a@,
            y@ == b@,
            x.len() == y.len(),
            a@.take(i as int) == b@.take(i as int),
        decreases x.len() - i,
    {
        if x[i] != y[i] {
            assert(a@[i as int] != b@[i as int]);
            return false;
        }
        i = i + 1;
        assert(a@.take(i as int) =~= a@.take(i - 1).push(a@[i - 1]));
        assert(b@.take(i as int) =~= b@.take(i - 1).push(b@[i - 1]));
    }
    assert(a@.take(i as int) =~= a@);
    assert(b@.take(i as int) =~= b@);
    true
}

// ---------------------------------------------------------------- trimming

/// `s` without the white space in front.
pub open spec fn trimmed_start(s: Seq<char>) -> Seq<char>
    decreases s.len(),
{
    if s.len() > 0 && is_white(s[0]) {
        trimmed_start(s.skip(1))
    } else {
        s
    }
}

/// `s` without the characters of `set` behind.
pub open spec fn trimmed_end_of(s: Seq<char>, set: Seq<char>) -> Seq<char>
    decreases s.len(),
{
    if s.len() > 0 && set.contains(s.last()) {
        trimmed_end_of(s.drop_last(), set)
    } else {
        s
    }
}

/// `s` without the white space behind.
pub open spec fn trimmed_end(s: Seq<char>) -> Seq<char>
    decreases s.len(),
{
    if s.len() > 0 && is_white(s.last()) {
        trimmed_end(s.drop_last())
    } else {
        s
    }
}

/// `s` without the white space on either side.
pub open spec fn trimmed(s: Seq<char>) -> Seq<char> {
    trimmed_end(trimmed_start(s))
}

proof fn lemma_trimmed_start(s: Seq<char>)
    ensures
        trimmed_start(s).len() > 0 ==> !is_white(trimmed_start(s)[0]),
    decreases s.len(),
{
    if s.len() > 0 && is_white(s[0]) {
        lemma_trimmed_start(s.skip(1));
    }
}

proof fn lemma_trimmed_end(s: Seq<char>)
    ensures
        trimmed_end(s).len() > 0 ==> !is_white(trimmed_end(s).last()) && trimmed_end(s)[0] == s[0],
        trimmed_end(trimmed_end(s)) == trimmed_end(s),
    decreases s.len(),
{
    if s.len() > 0 && is_white(s.last()) {
        lemma_trimmed_end(s.drop_last());
    }
}

/// What is trimmed has no white space at its ends any more.
pub proof fn trimming_twice_is_trimming_once(s: Seq<char>)
    ensures
        trimmed(trimmed(s)) == trimmed(s),
{
    lemma_trimmed_start(s);
    lemma_trimmed_end(trimmed_start(s));
}

fn leading_white(chars: &Vec<char>) -> (n: usize)
    ensures
        n <= chars@.len(),
        chars@.skip(n as int) == trimmed_start(chars@),
{
    let mut i: usize = 0;
    assert(chars@.skip(0) =~= chars@);
    while i < chars.len() && is_whitespace(chars[i])
        invariant
            i <= chars@.len(),
            trimmed_start(chars@.skip(i as int)) == trimmed_start(chars@),
        decreases chars@.len() - i,
    {
        assert(chars@.skip(i as int).skip(1) =~= chars@.skip(i + 1));
        i = i + 1;
    }
    i
}

/// `s` without the white space on either side.
pub fn trim<'a>(s: &'a str) -> (r: &'a str)
    ensures
        r@ == trimmed(s@),
{
    let chars = chars_of(s);
    let start = leading_white(&chars);
    let ghost tail = chars@.skip(start as int);
    let mut end: usize = chars.len();
    assert(tail.take(end - start) =~= tail);
    while start < end && is_whitespace(chars[end - 1])
        invariant
            start <= end <= chars@.len(),
            tail == chars@.skip(start as int),
            trimmed_end(tail.take(end - start)) == trimmed_end(tail),
        decreases end,
    {
        assert(tail.take(end - start).last() == chars@[end - 1]);
        assert(tail.take(end - start).drop_last() =~= tail.take(end - start - 1));
        end = end - 1;
    }
    proof {
        if start < end {
            assert(tail.take(end - start).last() == chars@[end - 1]);
        }
        assert(tail.take(end - start) =~= s@.subrange(start as int, end as int));
    }
    s.substring_char(start, end)
}

/// Whether `c` occurs in `set`.
pub fn has_char(set: &Vec<char>, c: char) -> (r: bool)
    ensures
        r == set@.contains(c),
{
    let mut i: usize = 0;
    while i < set.len()
        invariant
            i <= set@.len(),
            forall|j: int| 0 <= j < i ==> set@[j] != c,
        decreases set@.len() - i,
    {
        if set[i] == c {
            return true;
        }
        i = i + 1;
    }
    false
}

/// `s` without the characters of `set` behind.
pub fn trim_end_of<'a>(s: &'a str, set: &str) -> (r: &'a str)
    ensures
        r@ == trimmed_end_of(s@, set@),
{
    let chars = chars_of(s);
    let drop = chars_of(set);
    let mut end: usize = chars.len();
    assert(chars@.take(end as int) =~= chars@);
    while 0 < end && has_char(&drop, chars[end - 1])
        invariant
            end <= chars@.len(),
            drop@ == set@,
            trimmed_end_of(chars@.take(end as int), set@) == trimmed_end_of(chars@, set@),
        decreases end,
    {
        assert(chars@.take(end as int).drop_last() =~= chars@.take(end - 1));
        end = end - 1;
    }
    assert(chars@.take(end as int) =~= s@.subrange(0, end as int));
    s.substring_char(0, end)
}

// ---------------------------------------------------------------- searching

/// Whether `pattern` stands in `s` at position `i`.
pub open spec fn occurs_at(s: Seq<char>, pattern: Seq<char>, i: int) -> bool {
    0 <= i && i + pattern.len() <= s.len() && s.subrange(i, i + pattern.len() as int) == pattern
}

/// The first position at or behind `i` where `pattern` stands in `s`.
pub open spec fn found_from(s: Seq<char>, pattern: Seq<char>, i: int) -> Option<int>
    decreases s.len() + 1 - i,
{
    if i + pattern.len() > s.len() {
        None
    } else if occurs_at(s, pattern, i) {
        Some(i)
    } else {
        found_from(s, pattern, i + 1)
    }
}

/// The first position where `pattern` stands in `s`.
pub open spec fn found(s: Seq<char>, pattern: Seq<char>) -> Option<int> {
    found_from(s, pattern, 0)
}

/// Whether `pattern` stands somewhere in `s`.
pub open spec fn holds(s: Seq<char>, pattern: Seq<char>) -> bool {
    found(s, pattern) is Some
}

/// Whether `s` begins with `pattern`.
pub open spec fn begins_with(s: Seq<char>, pattern: Seq<char>) -> bool {
    occurs_at(s, pattern, 0)
}

/// Whether `s` ends in `pattern`.
pub open spec fn ends_in(s: Seq<char>, pattern: Seq<char>) -> bool {
    occurs_at(s, pattern, s.len() - pattern.len())
}

/// What stands in front of the first occurrence of `pattern`, and what stands behind it.
pub open spec fn cut(s: Seq<char>, pattern: Seq<char>) -> Option<(Seq<char>, Seq<char>)> {
    match found(s, pattern) {
        Some(i) => Some((s.take(i), s.skip(i + pattern.len()))),
        None => None,
    }
}

/// `s` behind `pattern`, where `s` begins with it.
pub open spec fn behind(s: Seq<char>, pattern: Seq<char>) -> Option<Seq<char>> {
    if begins_with(s, pattern) {
        Some(s.skip(pattern.len() as int))
    } else {
        None
    }
}

proof fn lemma_found_at(s: Seq<char>, pattern: Seq<char>, i: int, k: int)
    requires
        0 <= i <= k,
        occurs_at(s, pattern, k),
        forall|j: int| i <= j < k ==> !occurs_at(s, pattern, j),
    ensures
        found_from(s, pattern, i) == Some(k),
    decreases k - i,
{
    if i < k {
        lemma_found_at(s, pattern, i + 1, k);
    }
}

proof fn lemma_found_nowhere(s: Seq<char>, pattern: Seq<char>, i: int, j: int)
    requires
        found_from(s, pattern, i) is None,
        0 <= i <= j,
    ensures
        !occurs_at(s, pattern, j),
    decreases s.len() + 1 - i,
{
    if i + pattern.len() <= s.len() && i < j {
        lemma_found_nowhere(s, pattern, i + 1, j);
    }
}

/// Whether a mark that is put behind `s` stands there for the first time.
pub open spec fn first_mark(s: Seq<char>, mark: Seq<char>) -> bool {
    !holds((s + mark).drop_last(), mark)
}

/// A text is cut at the first mark.
pub proof fn a_text_is_cut_at_the_first_mark(front: Seq<char>, mark: Seq<char>, back: Seq<char>)
    requires
        mark.len() > 0,
        first_mark(front, mark),
    ensures
        cut(front + mark + back, mark) == Some((front, back)),
{
    let s = front + mark + back;
    let short = (front + mark).drop_last();
    let k = front.len() as int;
    assert(s.subrange(k, k + mark.len() as int) =~= mark);
    assert forall|j: int| 0 <= j < k implies !occurs_at(s, mark, j) by {
        lemma_found_nowhere(short, mark, 0, j);
        if occurs_at(s, mark, j) {
            assert(short.subrange(j, j + mark.len() as int) =~= s.subrange(
                j,
                j + mark.len() as int,
            ));
        }
    }
    lemma_found_at(s, mark, 0, k);
    assert(s.take(k) =~= front);
    assert(s.skip(k + mark.len()) =~= back);
}

fn stands_at(s: &Vec<char>, pattern: &Vec<char>, at: usize) -> (r: bool)
    requires
        at <= s@.len(),
    ensures
        r == occurs_at(s@, pattern@, at as int),
{
    if s.len() - at < pattern.len() {
        return false;
    }
    let size: usize = s.len();
    let mut k: usize = 0;
    while k < pattern.len()
        invariant
            k <= pattern@.len(),
            at + pattern@.len() <= s@.len(),
            size == s@.len(),
            forall|j: int| 0 <= j < k ==> s@[at + j] == pattern@[j],
        decreases pattern@.len() - k,
    {
        if s[at + k] != pattern[k] {
            assert(s@.subrange(at as int, at + pattern@.len())[k as int] != pattern@[k as int]);
            return false;
        }
        k = k + 1;
    }
    assert(s@.subrange(at as int, at + pattern@.len()) =~= pattern@);
    true
}

fn position(s: &Vec<char>, pattern: &Vec<char>) -> (r: Option<usize>)
    ensures
        match r {
            Some(i) => found(s@, pattern@) == Some(i as int) && i + pattern@.len() <= s@.len(),
            None => found(s@, pattern@) is None,
        },
{
    let mut i: usize = 0;
    while pattern.len() <= s.len() - i
        invariant
            i <= s@.len(),
            found_from(s@, pattern@, i as int) == found(s@, pattern@),
        decreases s@.len() - i,
    {
        if stands_at(s, pattern, i) {
            return Some(i);
        }
        assert(i < s@.len()) by {
            if i == s@.len() {
                assert(s@.subrange(i as int, i as int) =~= pattern@);
            }
        }
        i = i + 1;
    }
    None
}

/// Whether `pattern` stands anywhere in `s`.
pub fn contains(s: &str, pattern: &str) -> (r: bool)
    ensures
        r == holds(s@, pattern@),
{
    position(&chars_of(s), &chars_of(pattern)).is_some()
}

pub fn starts_with(s: &str, pattern: &str) -> (r: bool)
    ensures
        r == begins_with(s@, pattern@),
{
    stands_at(&chars_of(s), &chars_of(pattern), 0)
}

pub fn ends_with(s: &str, pattern: &str) -> (r: bool)
    ensures
        r == ends_in(s@, pattern@),
{
    let chars = chars_of(s);
    let end = chars_of(pattern);
    if chars.len() < end.len() {
        return false;
    }
    stands_at(&chars, &end, chars.len() - end.len())
}

/// What stands in front of the first occurrence of `pattern`, and what stands behind it.
pub fn split_once<'a>(s: &'a str, pattern: &str) -> (r: Option<(&'a str, &'a str)>)
    ensures
        match r {
            Some((head, tail)) => cut(s@, pattern@) == Some((head@, tail@)),
            None => cut(s@, pattern@) is None,
        },
{
    let chars = chars_of(s);
    let mark = chars_of(pattern);
    match position(&chars, &mark) {
        Some(i) => {
            let size: usize = chars.len();
            let head = s.substring_char(0, i);
            let tail = s.substring_char(i + mark.len(), size);
            assert(head@ =~= s@.take(i as int));
            assert(tail@ =~= s@.skip(i + mark@.len()));
            Some((head, tail))
        },
        None => None,
    }
}

/// `s` behind `pattern`, where `s` begins with it.
pub fn strip_prefix<'a>(s: &'a str, pattern: &str) -> (r: Option<&'a str>)
    ensures
        match r {
            Some(tail) => behind(s@, pattern@) == Some(tail@),
            None => behind(s@, pattern@) is None,
        },
{
    let chars = chars_of(s);
    let mark = chars_of(pattern);
    if stands_at(&chars, &mark, 0) {
        let tail = s.substring_char(mark.len(), chars.len());
        assert(tail@ =~= s@.skip(mark@.len() as int));
        Some(tail)
    } else {
        None
    }
}

/// `s` without the copies of `pattern` that it begins with.
pub open spec fn without_prefixes(s: Seq<char>, pattern: Seq<char>) -> Seq<char>
    decreases s.len(),
{
    if pattern.len() > 0 && begins_with(s, pattern) {
        without_prefixes(s.skip(pattern.len() as int), pattern)
    } else {
        s
    }
}

/// `s` without the copies of `pattern` that it begins with.
pub fn strip_prefixes<'a>(s: &'a str, pattern: &str) -> (r: &'a str)
    ensures
        r@ == without_prefixes(s@, pattern@),
    decreases s@.len(),
{
    if pattern.is_empty() {
        return s;
    }
    match strip_prefix(s, pattern) {
        Some(tail) => strip_prefixes(tail, pattern),
        None => s,
    }
}

// ---------------------------------------------------------------- splitting

/// How many characters stand in front of the first `c`.
pub open spec fn run_before(s: Seq<char>, c: char) -> nat
    decreases s.len(),
{
    if s.len() == 0 || s[0] == c {
        0
    } else {
        1 + run_before(s.skip(1), c)
    }
}

/// The parts of `s` between its occurrences of `c`.
pub open spec fn split_at_each(s: Seq<char>, c: char) -> Seq<Seq<char>>
    decreases s.len(),
{
    let n = run_before(s, c) as int;
    if n < s.len() {
        seq![s.take(n)] + split_at_each(s.skip(n + 1), c)
    } else {
        seq![s]
    }
}

/// A line whose line feed was taken off, without the carriage return behind it.
pub open spec fn without_return(line: Seq<char>) -> Seq<char> {
    if line.len() > 0 && line.last() == '\r' {
        line.drop_last()
    } else {
        line
    }
}

/// The lines of `s`: a line ends in a line feed, alone or behind a carriage return, and the last
/// one needs neither.
pub open spec fn lines_of(s: Seq<char>) -> Seq<Seq<char>>
    decreases s.len(),
{
    let n = run_before(s, '\n') as int;
    if s.len() == 0 {
        seq![]
    } else if n < s.len() {
        seq![without_return(s.take(n))] + lines_of(s.skip(n + 1))
    } else {
        seq![s]
    }
}

/// The trimmed lines that are not empty.
pub open spec fn filled_lines(lines: Seq<Seq<char>>) -> Seq<Seq<char>>
    decreases lines.len(),
{
    if lines.len() == 0 {
        Seq::empty()
    } else if trimmed(lines.last()).len() == 0 {
        filled_lines(lines.drop_last())
    } else {
        filled_lines(lines.drop_last()).push(trimmed(lines.last()))
    }
}

/// The lines of a text without the white space around them, and without those that are then empty.
pub open spec fn filled(s: Seq<char>) -> Seq<Seq<char>> {
    filled_lines(lines_of(s))
}

proof fn lemma_trimmed_front(c: char, s: Seq<char>)
    requires
        is_white(c),
    ensures
        trimmed(seq![c] + s) == trimmed(s),
{
    assert((seq![c] + s).skip(1) =~= s);
}

proof fn lemma_trimmed_start_back(s: Seq<char>, c: char)
    requires
        is_white(c),
    ensures
        trimmed_start(s.push(c)) == if trimmed_start(s).len() > 0 {
            trimmed_start(s).push(c)
        } else {
            Seq::empty()
        },
    decreases s.len(),
{
    if s.len() == 0 {
        assert(s.push(c).skip(1) =~= Seq::<char>::empty());
        assert(trimmed_start(Seq::<char>::empty()) =~= Seq::<char>::empty());
    } else if is_white(s[0]) {
        assert(s.push(c).skip(1) =~= s.skip(1).push(c));
        lemma_trimmed_start_back(s.skip(1), c);
    }
}

proof fn lemma_trimmed_back(s: Seq<char>, c: char)
    requires
        is_white(c),
    ensures
        trimmed(s.push(c)) == trimmed(s),
{
    lemma_trimmed_start_back(s, c);
    if trimmed_start(s).len() > 0 {
        assert(trimmed_start(s).push(c).drop_last() =~= trimmed_start(s));
    } else {
        assert(trimmed_start(s) =~= Seq::<char>::empty());
    }
}

proof fn lemma_without_return(line: Seq<char>)
    ensures
        trimmed(without_return(line)) == trimmed(line),
{
    if line.len() > 0 && line.last() == '\r' {
        assert(line =~= line.drop_last().push('\r'));
        lemma_trimmed_back(line.drop_last(), '\r');
    }
}

proof fn lemma_run(s: Seq<char>, c: char)
    ensures
        run_before(s, c) <= s.len(),
        run_before(s, c) < s.len() ==> s[run_before(s, c) as int] == c,
        forall|i: int| 0 <= i < run_before(s, c) ==> #[trigger] s[i] != c,
    decreases s.len(),
{
    if s.len() > 0 && s[0] != c {
        lemma_run(s.skip(1), c);
        assert forall|i: int| 0 <= i < run_before(s, c) implies #[trigger] s[i] != c by {
            if i > 0 {
                assert(s.skip(1)[i - 1] == s[i]);
            }
        }
    }
}

proof fn lemma_run_is(s: Seq<char>, c: char, n: int)
    requires
        0 <= n <= s.len(),
        n < s.len() ==> s[n] == c,
        forall|i: int| 0 <= i < n ==> #[trigger] s[i] != c,
    ensures
        run_before(s, c) == n,
{
    lemma_run(s, c);
    let k = run_before(s, c) as int;
    if k < n {
        assert(s[k] != c);
    }
    if n < k {
        assert(s[n] != c);
    }
}

/// The lines of two lists, one behind the other, are filled one list after the other.
pub proof fn filled_lines_add(a: Seq<Seq<char>>, b: Seq<Seq<char>>)
    ensures
        filled_lines(a + b) == filled_lines(a) + filled_lines(b),
    decreases b.len(),
{
    if b.len() == 0 {
        assert(a + b =~= a);
        assert(filled_lines(a) + filled_lines(b) =~= filled_lines(a));
    } else {
        assert((a + b).drop_last() =~= a + b.drop_last());
        assert((a + b).last() == b.last());
        filled_lines_add(a, b.drop_last());
        assert(filled_lines(a + b) =~= filled_lines(a) + filled_lines(b));
    }
}

proof fn lemma_filled_one(a: Seq<char>, b: Seq<char>)
    requires
        trimmed(a) == trimmed(b),
    ensures
        filled_lines(seq![a]) == filled_lines(seq![b]),
        trimmed(a).len() == 0 ==> filled_lines(seq![a]) == Seq::<Seq<char>>::empty(),
        trimmed(a).len() > 0 ==> filled_lines(seq![a]) == seq![trimmed(a)],
{
    assert(seq![a].drop_last() =~= Seq::<Seq<char>>::empty());
    assert(seq![b].drop_last() =~= Seq::<Seq<char>>::empty());
    assert(filled_lines(Seq::<Seq<char>>::empty()) =~= Seq::<Seq<char>>::empty());
    if trimmed(a).len() > 0 {
        assert(filled_lines(seq![a]) =~= seq![trimmed(a)]);
    }
}

proof fn lemma_lines_step(s: Seq<char>)
    requires
        s.len() > 0,
    ensures
        run_before(s, '\n') < s.len() ==> filled(s) == filled_lines(
            seq![s.take(run_before(s, '\n') as int)],
        ) + filled(s.skip(run_before(s, '\n') as int + 1)),
        run_before(s, '\n') >= s.len() ==> filled(s) == filled_lines(seq![s]),
{
    let n = run_before(s, '\n') as int;
    if n < s.len() {
        lemma_without_return(s.take(n));
        lemma_filled_one(without_return(s.take(n)), s.take(n));
        filled_lines_add(seq![without_return(s.take(n))], lines_of(s.skip(n + 1)));
    }
}

/// The lines of two texts with a line feed between them are those of the one and then those of the
/// other.
pub proof fn lines_follow_each_other(a: Seq<char>, b: Seq<char>)
    ensures
        filled(a + seq!['\n'] + b) == filled(a) + filled(b),
    decreases a.len(),
{
    let s = a + seq!['\n'] + b;
    let n = run_before(a, '\n') as int;
    lemma_run(a, '\n');
    assert forall|i: int| 0 <= i < n implies #[trigger] s[i] != '\n' by {
        assert(s[i] == a[i]);
    }
    lemma_run_is(s, '\n', n);
    lemma_lines_step(s);
    assert(s.take(n) =~= a.take(n));
    if n < a.len() {
        assert(s.skip(n + 1) =~= a.skip(n + 1) + seq!['\n'] + b);
        lines_follow_each_other(a.skip(n + 1), b);
        lemma_lines_step(a);
        assert(filled(s) =~= filled(a) + filled(b));
    } else {
        assert(a.take(n) =~= a);
        assert(s.skip(n + 1) =~= b);
        if a.len() == 0 {
            lemma_filled_one(a, a);
            assert(a =~= Seq::<char>::empty());
            assert(trimmed(a).len() == 0);
            assert(filled(a) =~= Seq::<Seq<char>>::empty());
        } else {
            lemma_lines_step(a);
        }
    }
}

proof fn lemma_filled_back(s: Seq<char>, c: char)
    requires
        is_white(c),
    ensures
        filled(s.push(c)) == filled(s),
    decreases s.len(),
{
    let t = s.push(c);
    let n = run_before(s, '\n') as int;
    if c == '\n' {
        assert(t =~= s + seq!['\n'] + Seq::<char>::empty());
        lines_follow_each_other(s, Seq::empty());
        assert(filled(Seq::<char>::empty()) =~= Seq::<Seq<char>>::empty());
        assert(filled(s) + Seq::<Seq<char>>::empty() =~= filled(s));
    } else {
        lemma_run(s, '\n');
        lemma_lines_step(t);
        if n < s.len() {
            assert forall|i: int| 0 <= i < n implies #[trigger] t[i] != '\n' by {
                assert(t[i] == s[i]);
            }
            lemma_run_is(t, '\n', n);
            assert(t.take(n) =~= s.take(n));
            assert(t.skip(n + 1) =~= s.skip(n + 1).push(c));
            lemma_filled_back(s.skip(n + 1), c);
            lemma_lines_step(s);
        } else {
            assert forall|i: int| 0 <= i < t.len() implies #[trigger] t[i] != '\n' by {
                if i < s.len() {
                    assert(t[i] == s[i]);
                }
            }
            lemma_run_is(t, '\n', t.len() as int);
            lemma_trimmed_back(s, c);
            lemma_filled_one(t, s);
            if s.len() == 0 {
                assert(trimmed(s).len() == 0);
                assert(filled(s) =~= Seq::<Seq<char>>::empty());
            } else {
                lemma_lines_step(s);
            }
        }
    }
}

proof fn lemma_filled_front(c: char, s: Seq<char>)
    requires
        is_white(c),
    ensures
        filled(seq![c] + s) == filled(s),
{
    let t = seq![c] + s;
    let n = run_before(s, '\n') as int;
    if c == '\n' {
        let none = Seq::<char>::empty();
        assert(t =~= none + seq!['\n'] + s);
        lines_follow_each_other(none, s);
        assert(filled(none) =~= Seq::<Seq<char>>::empty());
        assert(Seq::<Seq<char>>::empty() + filled(s) =~= filled(s));
    } else {
        lemma_run(s, '\n');
        assert forall|i: int| 0 <= i < n + 1 implies #[trigger] t[i] != '\n' by {
            if i > 0 {
                assert(t[i] == s[i - 1]);
            }
        }
        lemma_run_is(t, '\n', n + 1);
        lemma_lines_step(t);
        if n < s.len() {
            assert(t.take(n + 1) =~= seq![c] + s.take(n));
            assert(t.skip(n + 2) =~= s.skip(n + 1));
            lemma_trimmed_front(c, s.take(n));
            lemma_filled_one(t.take(n + 1), s.take(n));
            lemma_lines_step(s);
        } else {
            lemma_trimmed_front(c, s);
            lemma_filled_one(t, s);
            if s.len() == 0 {
                assert(trimmed(s).len() == 0);
                assert(filled(s) =~= Seq::<Seq<char>>::empty());
            } else {
                lemma_lines_step(s);
            }
        }
    }
}

proof fn lemma_filled_start(s: Seq<char>)
    ensures
        filled(trimmed_start(s)) == filled(s),
    decreases s.len(),
{
    if s.len() > 0 && is_white(s[0]) {
        lemma_filled_start(s.skip(1));
        assert(s =~= seq![s[0]] + s.skip(1));
        lemma_filled_front(s[0], s.skip(1));
    }
}

proof fn lemma_filled_end(s: Seq<char>)
    ensures
        filled(trimmed_end(s)) == filled(s),
    decreases s.len(),
{
    if s.len() > 0 && is_white(s.last()) {
        lemma_filled_end(s.drop_last());
        assert(s =~= s.drop_last().push(s.last()));
        lemma_filled_back(s.drop_last(), s.last());
    }
}

/// White space around a text adds no lines to it.
pub proof fn trimming_keeps_the_lines(s: Seq<char>)
    ensures
        filled(trimmed(s)) == filled(s),
{
    lemma_filled_start(s);
    lemma_filled_end(trimmed_start(s));
}

/// A text without white space around it and without a line feed is one line.
pub proof fn a_plain_text_is_one_line(s: Seq<char>)
    requires
        s.len() > 0,
        trimmed(s) == s,
        !s.contains('\n'),
    ensures
        filled(s) == seq![s],
{
    assert forall|i: int| 0 <= i < s.len() implies #[trigger] s[i] != '\n' by {
        assert(s.contains(s[i]));
    }
    lemma_run_is(s, '\n', s.len() as int);
    lemma_lines_step(s);
    lemma_filled_one(s, s);
}

fn run_end(chars: &Vec<char>, from: usize, c: char) -> (end: usize)
    requires
        from <= chars@.len(),
    ensures
        from <= end <= chars@.len(),
        end == from + run_before(chars@.skip(from as int), c),
        end < chars@.len() ==> chars@[end as int] == c,
{
    let mut i: usize = from;
    while i < chars.len() && chars[i] != c
        invariant
            from <= i <= chars@.len(),
            i + run_before(chars@.skip(i as int), c) == from + run_before(
                chars@.skip(from as int),
                c,
            ),
        decreases chars@.len() - i,
    {
        assert(chars@.skip(i as int).skip(1) =~= chars@.skip(i + 1));
        i = i + 1;
    }
    i
}

/// The parts of `s` between its occurrences of `c`.
pub fn split(s: &str, c: char) -> (r: Vec<String>)
    ensures
        views(r@) == split_at_each(s@, c),
{
    let chars = chars_of(s);
    let mut out: Vec<String> = Vec::new();
    let mut at: usize = 0;
    assert(s@.skip(0) =~= s@);
    assert(views(out@) + split_at_each(s@, c) =~= split_at_each(s@, c));
    loop
        invariant
            chars@ == s@,
            at <= s@.len(),
            views(out@) + split_at_each(s@.skip(at as int), c) == split_at_each(s@, c),
        decreases s@.len() - at,
    {
        let end = run_end(&chars, at, c);
        let part = s.substring_char(at, end);
        let ghost rest = s@.skip(at as int);
        let ghost before = views(out@);
        out.push(part.to_string());
        proof {
            assert(rest.take(end - at) =~= part@);
            assert(views(out@) =~= before.push(part@));
        }
        if end == chars.len() {
            assert(rest =~= part@);
            assert(before + seq![part@] =~= views(out@));
            return out;
        }
        proof {
            assert(rest.skip(end - at + 1) =~= s@.skip(end + 1));
            assert(before + (seq![part@] + split_at_each(s@.skip(end + 1), c)) =~= views(out@)
                + split_at_each(s@.skip(end + 1), c));
        }
        at = end + 1;
    }
}

/// The lines of `s`.
pub fn lines(s: &str) -> (r: Vec<String>)
    ensures
        views(r@) == lines_of(s@),
{
    let chars = chars_of(s);
    let mut out: Vec<String> = Vec::new();
    let mut at: usize = 0;
    assert(s@.skip(0) =~= s@);
    assert(views(out@) + lines_of(s@) =~= lines_of(s@));
    while at < chars.len()
        invariant
            chars@ == s@,
            at <= s@.len(),
            views(out@) + lines_of(s@.skip(at as int)) == lines_of(s@),
        decreases s@.len() - at,
    {
        let end = run_end(&chars, at, '\n');
        let ghost rest = s@.skip(at as int);
        let ghost before = views(out@);
        if end == chars.len() {
            let part = s.substring_char(at, end);
            out.push(part.to_string());
            proof {
                assert(rest =~= part@);
                assert(views(out@) =~= before.push(part@));
                assert(before + seq![part@] =~= views(out@));
            }
            return out;
        }
        let stop: usize = if at < end && chars[end - 1] == '\r' {
            end - 1
        } else {
            end
        };
        let part = s.substring_char(at, stop);
        out.push(part.to_string());
        proof {
            let line = rest.take(end - at);
            if at < end {
                assert(line.last() == chars@[end - 1]);
            }
            assert(without_return(line) =~= part@);
            assert(views(out@) =~= before.push(part@));
            assert(rest.skip(end - at + 1) =~= s@.skip(end + 1));
            assert(before + (seq![part@] + lines_of(s@.skip(end + 1))) =~= views(out@) + lines_of(
                s@.skip(end + 1),
            ));
        }
        at = end + 1;
    }
    assert(s@.skip(at as int).len() == 0);
    assert(views(out@) + seq![] =~= views(out@));
    out
}

/// How many characters stand in front of the first white space.
pub open spec fn word_length(s: Seq<char>) -> nat
    decreases s.len(),
{
    if s.len() == 0 || is_white(s[0]) {
        0
    } else {
        1 + word_length(s.skip(1))
    }
}

/// The first run of characters that are no white space.
pub open spec fn first_word_of(s: Seq<char>) -> Option<Seq<char>> {
    let t = trimmed_start(s);
    if t.len() == 0 {
        None
    } else {
        Some(t.take(word_length(t) as int))
    }
}

/// The first run of characters that are no white space.
pub fn first_word<'a>(s: &'a str) -> (r: Option<&'a str>)
    ensures
        match r {
            Some(word) => first_word_of(s@) == Some(word@),
            None => first_word_of(s@) is None,
        },
{
    let chars = chars_of(s);
    let start = leading_white(&chars);
    if start == chars.len() {
        return None;
    }
    let ghost tail = chars@.skip(start as int);
    let mut end: usize = start;
    assert(tail.skip(0) =~= tail);
    while end < chars.len() && !is_whitespace(chars[end])
        invariant
            start <= end <= chars@.len(),
            tail == chars@.skip(start as int),
            (end - start) + word_length(tail.skip(end - start)) == word_length(tail),
        decreases chars@.len() - end,
    {
        assert(tail.skip(end - start)[0] == chars@[end as int]);
        assert(tail.skip(end - start).skip(1) =~= tail.skip(end - start + 1));
        end = end + 1;
    }
    proof {
        if end < chars@.len() {
            assert(tail.skip(end - start)[0] == chars@[end as int]);
        }
        assert(tail.take(end - start) =~= s@.subrange(start as int, end as int));
    }
    Some(s.substring_char(start, end))
}

/// How many ASCII letters `s` begins with.
pub open spec fn letter_run(s: Seq<char>) -> nat
    decreases s.len(),
{
    if s.len() == 0 || !is_letter(s[0]) {
        0
    } else {
        1 + letter_run(s.skip(1))
    }
}

/// The parts of `s` between the characters that are no ASCII letters.
pub open spec fn letter_words_of(s: Seq<char>) -> Seq<Seq<char>>
    decreases s.len(),
{
    let n = letter_run(s) as int;
    if n < s.len() {
        seq![s.take(n)] + letter_words_of(s.skip(n + 1))
    } else {
        seq![s]
    }
}

/// The parts of `s` between the characters that are no ASCII letters.
pub fn letter_words(s: &str) -> (r: Vec<String>)
    ensures
        views(r@) == letter_words_of(s@),
{
    let chars = chars_of(s);
    let mut out: Vec<String> = Vec::new();
    let mut at: usize = 0;
    assert(s@.skip(0) =~= s@);
    assert(views(out@) + letter_words_of(s@) =~= letter_words_of(s@));
    loop
        invariant
            chars@ == s@,
            at <= s@.len(),
            views(out@) + letter_words_of(s@.skip(at as int)) == letter_words_of(s@),
        decreases s@.len() - at,
    {
        let ghost rest = s@.skip(at as int);
        let mut end: usize = at;
        assert(rest.skip(0) =~= rest);
        while end < chars.len() && is_ascii_letter(chars[end])
            invariant
                chars@ == s@,
                at <= end <= s@.len(),
                rest == s@.skip(at as int),
                (end - at) + letter_run(rest.skip(end - at)) == letter_run(rest),
            decreases s@.len() - end,
        {
            assert(rest.skip(end - at)[0] == s@[end as int]);
            assert(rest.skip(end - at).skip(1) =~= rest.skip(end - at + 1));
            end = end + 1;
        }
        let part = s.substring_char(at, end);
        let ghost before = views(out@);
        out.push(part.to_string());
        proof {
            if end < s@.len() {
                assert(rest.skip(end - at)[0] == s@[end as int]);
            }
            assert(rest.take(end - at) =~= part@);
            assert(views(out@) =~= before.push(part@));
        }
        if end == chars.len() {
            assert(rest =~= part@);
            assert(before + seq![part@] =~= views(out@));
            return out;
        }
        proof {
            assert(rest.skip(end - at + 1) =~= s@.skip(end + 1));
            assert(before + (seq![part@] + letter_words_of(s@.skip(end + 1))) =~= views(out@)
                + letter_words_of(s@.skip(end + 1)));
        }
        at = end + 1;
    }
}

// ---------------------------------------------------------------- rewriting

/// `s` with every ASCII capital turned into its small letter.
pub open spec fn lowered(s: Seq<char>) -> Seq<char> {
    s.map_values(|c: char| lower(c))
}

/// `s` with every ASCII capital turned into its small letter.
pub fn to_lowercase(s: &str) -> (r: String)
    ensures
        r@ == lowered(s@),
{
    let chars = chars_of(s);
    let mut out = String::new();
    let mut i: usize = 0;
    assert(out@ =~= lowered(s@).take(0));
    while i < chars.len()
        invariant
            chars@ == s@,
            i <= s@.len(),
            out@ == lowered(s@).take(i as int),
        decreases s@.len() - i,
    {
        out.push(to_lower(chars[i]));
        i = i + 1;
        assert(out@ =~= lowered(s@).take(i as int));
    }
    assert(out@ =~= lowered(s@));
    out
}

/// Whether two texts are the same but for the case of their ASCII letters.
pub open spec fn alike(a: Seq<char>, b: Seq<char>) -> bool {
    lowered(a) == lowered(b)
}

/// Whether two texts are the same but for the case of their ASCII letters.
pub fn same_ignoring_case(a: &str, b: &str) -> (r: bool)
    ensures
        r == alike(a@, b@),
{
    same_text(&to_lowercase(a), &to_lowercase(b))
}

/// `s` with each `from` replaced by `to`.
pub open spec fn replaced(s: Seq<char>, from: char, to: char) -> Seq<char> {
    s.map_values(|c: char| if c == from { to } else { c })
}

/// `s` with each `from` replaced by `to`.
pub fn replace_char(s: &str, from: char, to: char) -> (r: String)
    ensures
        r@ == replaced(s@, from, to),
{
    let chars = chars_of(s);
    let mut out = String::new();
    let mut i: usize = 0;
    assert(out@ =~= replaced(s@, from, to).take(0));
    while i < chars.len()
        invariant
            chars@ == s@,
            i <= s@.len(),
            out@ == replaced(s@, from, to).take(i as int),
        decreases s@.len() - i,
    {
        let c = chars[i];
        out.push(
            if c == from {
                to
            } else {
                c
            },
        );
        i = i + 1;
        assert(out@ =~= replaced(s@, from, to).take(i as int));
    }
    assert(out@ =~= replaced(s@, from, to));
    out
}

/// `s` without its occurrences of `c`.
pub open spec fn without_char(s: Seq<char>, c: char) -> Seq<char>
    decreases s.len(),
{
    if s.len() == 0 {
        s
    } else if s.last() == c {
        without_char(s.drop_last(), c)
    } else {
        without_char(s.drop_last(), c).push(s.last())
    }
}

/// `s` without its occurrences of `c`.
pub fn remove_char(s: &str, c: char) -> (r: String)
    ensures
        r@ == without_char(s@, c),
{
    let chars = chars_of(s);
    let mut out = String::new();
    let mut i: usize = 0;
    while i < chars.len()
        invariant
            chars@ == s@,
            i <= s@.len(),
            out@ == without_char(s@.take(i as int), c),
        decreases s@.len() - i,
    {
        if chars[i] != c {
            out.push(chars[i]);
        }
        i = i + 1;
        assert(s@.take(i as int).drop_last() =~= s@.take(i - 1));
    }
    assert(s@.take(i as int) =~= s@);
    out
}

/// `s` without its white space.
pub open spec fn without_white(s: Seq<char>) -> Seq<char>
    decreases s.len(),
{
    if s.len() == 0 {
        s
    } else if is_white(s.last()) {
        without_white(s.drop_last())
    } else {
        without_white(s.drop_last()).push(s.last())
    }
}

/// `s` without its white space.
pub fn remove_whitespace(s: &str) -> (r: String)
    ensures
        r@ == without_white(s@),
{
    let chars = chars_of(s);
    let mut out = String::new();
    let mut i: usize = 0;
    while i < chars.len()
        invariant
            chars@ == s@,
            i <= s@.len(),
            out@ == without_white(s@.take(i as int)),
        decreases s@.len() - i,
    {
        if !is_whitespace(chars[i]) {
            out.push(chars[i]);
        }
        i = i + 1;
        assert(s@.take(i as int).drop_last() =~= s@.take(i - 1));
    }
    assert(s@.take(i as int) =~= s@);
    out
}

/// Puts a text that is not missing behind a list.
pub fn push_present(list: &mut Vec<String>, text: Option<String>)
    ensures
        views(final(list)@) == match text {
            Some(text) => views(old(list)@).push(text@),
            None => views(old(list)@),
        },
{
    if let Some(text) = text {
        let ghost before = views(list@);
        list.push(text);
        assert(views(list@) =~= before.push(text@));
    }
}

/// The texts of a list in a row, with `sep` between each two.
pub open spec fn joined(list: Seq<Seq<char>>, sep: Seq<char>) -> Seq<char>
    decreases list.len(),
{
    if list.len() == 0 {
        seq![]
    } else if list.len() == 1 {
        list[0]
    } else {
        joined(list.drop_last(), sep) + sep + list.last()
    }
}

/// The texts of a list in a row, with `sep` between each two.
pub fn join(list: &Vec<String>, sep: &str) -> (r: String)
    ensures
        r@ == joined(views(list@), sep@),
{
    let mut out = String::new();
    let mut i: usize = 0;
    assert(views(list@).take(0).len() == 0);
    while i < list.len()
        invariant
            i <= list@.len(),
            out@ == joined(views(list@).take(i as int), sep@),
        decreases list@.len() - i,
    {
        let ghost done = views(list@).take(i as int);
        if i > 0 {
            out.append(sep);
        }
        out.append(list[i].as_str());
        i = i + 1;
        proof {
            let now = views(list@).take(i as int);
            assert(now.drop_last() =~= done);
            assert(now.last() == list@[i - 1]@);
            if i == 1 {
                assert(out@ =~= now[0]);
            }
        }
    }
    assert(views(list@).take(i as int) =~= views(list@));
    out
}

} // verus!
