//! What is read from links to passive trees and from the bytes that they carry.

use vstd::prelude::*;
use vstd::string::*;
use crate::encoding::{url_safe_bytes, url_safe_no_pad_bytes};
use crate::laws::texts::{
    a_text_begins_with_its_front, a_text_holds_its_parts, a_text_is_split_at_each_mark, all_white,
    is_tight, what_a_text_holds_is_a_part, white_space_at_the_ends_is_taken_off,
};
use crate::links::{parsed_link, LinkTexts};
use crate::passive_tree::{
    code_in, coded_tree, counts_its_nodes, last_filled, pair_value, pair_values, tree_at, tree_in,
    word_value, PassiveTreeInfo, TreeContent, TreeError,
};
use crate::text::{begins_with, behind, holds, split_at_each};

verus! {

// ---------------------------------------------------------------- bytes

/// The number that four bytes make, the highest one first.
pub open spec fn version_in(bytes: Seq<u8>) -> int {
    bytes[0] * 16_777_216 + bytes[1] * 65_536 + bytes[2] * 256 + bytes[3]
}

/// Whether a list of nodes holds the numbers that pairs of bytes make from a position on, the higher
/// byte first.
pub open spec fn are_nodes(nodes: Seq<u16>, bytes: Seq<u8>, at: int, count: int) -> bool {
    nodes.len() == count && forall|i: int|
        0 <= i < count ==> #[trigger] nodes[i] == 256 * bytes[at + 2 * i] + bytes[at + 2 * i + 1]
}

/// Whether a tree has the class, ascendancy and bloodline of its header: the ascendancy in the lowest
/// two bits of a byte and the bloodline in the others.
pub open spec fn has_header(tree: TreeContent, bytes: Seq<u8>) -> bool {
    &&& tree.version == version_in(bytes)
    &&& tree.class_id == bytes[4]
    &&& tree.ascendancy_id < 4
    &&& bytes[5] == 4 * tree.bloodline_id + tree.ascendancy_id
}

proof fn lemma_nodes(bytes: Seq<u8>, at: int, count: nat)
    ensures
        are_nodes(pair_values(bytes, at, count), bytes, at, count as int),
{
    let nodes = pair_values(bytes, at, count);
    assert forall|i: int| 0 <= i < count implies #[trigger] nodes[i] == 256 * bytes[at + 2 * i]
        + bytes[at + 2 * i + 1] by {
        lemma_pair(bytes[at + 2 * i], bytes[at + 2 * i + 1]);
    }
}

proof fn lemma_pair(high: u8, low: u8)
    ensures
        pair_value(high, low) == 256 * high + low,
{
}

proof fn lemma_version(bytes: Seq<u8>)
    requires
        bytes.len() >= 7,
    ensures
        word_value(bytes) == version_in(bytes),
{
    lemma_word(bytes[0], bytes[1], bytes[2], bytes[3]);
}

proof fn lemma_word(a: u8, b: u8, c: u8, d: u8)
    ensures
        0 <= a * 16_777_216 + b * 65_536 + c * 256 + d <= 0xffff_ffff,
{
}

/// A tree of version six or five has two lists of nodes, each behind the number of its nodes; one of
/// version six has the number of its masteries behind them, and four bytes for each.
pub proof fn lists_of_nodes_are_counted(bytes: Seq<u8>)
    requires
        bytes.len() >= 7,
        version_in(bytes) == 6 || version_in(bytes) == 5,
    ensures
        ({
            let n = bytes[6] as int;
            let second = 7 + 2 * n;
            let e = bytes[second] as int;
            let end = second + 1 + 2 * e;
            let m = bytes[end] as int;
            let six = version_in(bytes) == 6;
            &&& bytes.len() < second ==> coded_tree(bytes) == Err::<TreeContent, TreeError>(
                TreeError::NodesIncomplete,
            )
            &&& bytes.len() == second ==> coded_tree(bytes) == Err::<TreeContent, TreeError>(
                TreeError::Incomplete,
            )
            &&& second < bytes.len() < end ==> coded_tree(bytes) == Err::<TreeContent, TreeError>(
                TreeError::NodesIncomplete,
            )
            &&& six && bytes.len() == end ==> coded_tree(bytes) == Err::<TreeContent, TreeError>(
                TreeError::Incomplete,
            )
            &&& six && second < end < bytes.len() < end + 1 + 4 * m ==> coded_tree(bytes) == Err::<
                TreeContent,
                TreeError,
            >(TreeError::MasteriesIncomplete)
            &&& second < bytes.len() && end <= bytes.len() && (six ==> end + 1 + 4 * m
                <= bytes.len()) ==> {
                &&& coded_tree(bytes) matches Ok(tree)
                &&& has_header(tree, bytes)
                &&& are_nodes(tree.nodes, bytes, 7, n)
                &&& are_nodes(tree.extended, bytes, second + 1, e)
                &&& tree.masteries == if six {
                    m
                } else {
                    0
                }
            }
        }),
{
    lemma_version(bytes);
    lemma_nodes(bytes, 7, bytes[6] as nat);
    let second = 7 + 2 * bytes[6];
    if second < bytes.len() {
        lemma_nodes(bytes, second + 1, bytes[second] as nat);
    }
    lemma_low_bits(bytes[5]);
}

proof fn lemma_low_bits(b: u8)
    ensures
        b == 4 * (b / 4) + b % 4,
        b % 4 < 4,
{
}

/// A tree of version four has its nodes behind one byte more, as many as there are.
pub proof fn version_four_has_its_nodes_up_to_the_end(bytes: Seq<u8>)
    requires
        bytes.len() >= 7,
        version_in(bytes) == 4,
    ensures
        ({
            &&& coded_tree(bytes) matches Ok(tree)
            &&& has_header(tree, bytes)
            &&& are_nodes(tree.nodes, bytes, 7, (bytes.len() - 7) / 2)
            &&& tree.extended.len() == 0
            &&& tree.masteries == 0
        }),
{
    lemma_version(bytes);
    lemma_nodes(bytes, 7, ((bytes.len() - 7) / 2) as nat);
    lemma_low_bits(bytes[5]);
}

/// Less than seven bytes are no tree, and trees of other versions are not read.
pub proof fn other_trees_are_not_read(bytes: Seq<u8>)
    ensures
        bytes.len() < 7 ==> coded_tree(bytes) == Err::<TreeContent, TreeError>(
            TreeError::Incomplete,
        ),
        bytes.len() >= 7 && version_in(bytes) != 6 && version_in(bytes) != 5 && version_in(bytes)
            != 4 ==> (coded_tree(bytes) matches Err(TreeError::UnsupportedVersion(version))
            && version == version_in(bytes)),
{
    if bytes.len() >= 7 {
        lemma_version(bytes);
    }
}

/// A tree that is read tells how many nodes of each list it has.
pub proof fn nodes_are_counted(info: PassiveTreeInfo)
    requires
        counts_its_nodes(info),
    ensures
        info.allocated_nodes == info@.nodes.len(),
        info.extended_nodes == info@.extended.len(),
        info@.nodes == info.allocated_node_ids@,
        info@.extended == info.extended_node_ids@,
        info@.masteries == info.masteries,
        info@.version == info.version,
        info@.class_id == info.class_id,
        info@.ascendancy_id == info.ascendancy_id,
        info@.bloodline_id == info.bloodline_id,
{
}

// ---------------------------------------------------------------- links

/// Whether a link is one to a passive tree on the site of the game.
pub open spec fn leads_to_the_game(link: LinkTexts) -> bool {
    &&& link.scheme == "https"@
    &&& link.host == Some("pathofexile.com"@) || link.host == Some("www.pathofexile.com"@)
    &&& holds(link.path, "passive-skill-tree"@)
}

proof fn lemma_fullscreen(path: Seq<char>)
    requires
        holds(path, "fullscreen-passive-skill-tree"@),
    ensures
        holds(path, "passive-skill-tree"@),
{
    reveal_strlit("fullscreen-passive-skill-tree");
    reveal_strlit("passive-skill-tree");
    reveal_strlit("fullscreen-");
    assert("fullscreen-passive-skill-tree"@ =~= "fullscreen-"@ + "passive-skill-tree"@);
    what_a_text_holds_is_a_part(path, "fullscreen-passive-skill-tree"@);
    let (front, back) = choose|front: Seq<char>, back: Seq<char>|
        path == #[trigger] (front + "fullscreen-passive-skill-tree"@ + back);
    assert(path =~= (front + "fullscreen-"@) + "passive-skill-tree"@ + back);
    a_text_holds_its_parts(front + "fullscreen-"@, "passive-skill-tree"@, back);
}

/// Only links to passive trees on the site of the game are followed up, and what is no link is none.
pub proof fn only_the_game_has_trees(link: LinkTexts)
    ensures
        tree_at(None) == Err::<TreeContent, TreeError>(TreeError::InvalidUrl),
        !leads_to_the_game(link) ==> tree_at(Some(link)) == Err::<TreeContent, TreeError>(
            TreeError::NotOfficial,
        ),
        leads_to_the_game(link) ==> tree_at(Some(link)) != Err::<TreeContent, TreeError>(
            TreeError::NotOfficial,
        ) && tree_at(Some(link)) != Err::<TreeContent, TreeError>(TreeError::InvalidUrl),
{
    if holds(link.path, "fullscreen-passive-skill-tree"@) {
        lemma_fullscreen(link.path);
    }
}

/// A text is read as the link that it is without the white space around it.
pub proof fn a_text_is_read_as_a_link(front: Seq<char>, text: Seq<char>, back: Seq<char>)
    requires
        all_white(front),
        all_white(back),
        is_tight(text),
    ensures
        tree_in(front + text + back) == tree_at(parsed_link(text)),
{
    white_space_at_the_ends_is_taken_off(front, text, back);
}

proof fn lemma_split(a: Seq<char>, b: Seq<char>, c: char)
    ensures
        split_at_each(a + seq![c] + b, c) == split_at_each(a, c) + split_at_each(b, c),
    decreases a.len(),
{
    if a.contains(c) {
        lemma_first(a, c);
        let k = choose|k: int|
            0 <= k < a.len() && a[k] == c && !(#[trigger] a.take(k)).contains(c);
        let part = a.take(k);
        let rest = a.skip(k + 1);
        assert(a =~= part + seq![c] + rest);
        assert(a + seq![c] + b =~= part + seq![c] + (rest + seq![c] + b));
        a_text_is_split_at_each_mark(part, rest, c);
        a_text_is_split_at_each_mark(part, rest + seq![c] + b, c);
        lemma_split(rest, b, c);
        assert(seq![part] + (split_at_each(rest, c) + split_at_each(b, c)) =~= (seq![part]
            + split_at_each(rest, c)) + split_at_each(b, c));
    } else {
        a_text_is_split_at_each_mark(a, b, c);
    }
}

proof fn lemma_first(a: Seq<char>, c: char)
    requires
        a.contains(c),
    ensures
        exists|k: int| 0 <= k < a.len() && a[k] == c && !(#[trigger] a.take(k)).contains(c),
    decreases a.len(),
{
    if a[0] == c {
        assert(!a.take(0).contains(c));
    } else {
        let rest = a.skip(1);
        let j = choose|j: int| 0 <= j < a.len() && a[j] == c;
        assert(rest[j - 1] == c);
        lemma_first(rest, c);
        let k = choose|k: int|
            0 <= k < rest.len() && rest[k] == c && !(#[trigger] rest.take(k)).contains(c);
        assert(a[k + 1] == c);
        let front = a.take(k + 1);
        if front.contains(c) {
            let m = choose|m: int| 0 <= m < front.len() && front[m] == c;
            assert(rest.take(k)[m - 1] == c);
        }
        assert(!a.take(k + 1).contains(c));
    }
}

proof fn lemma_slashes(text: Seq<char>, slashes: Seq<char>, code: Seq<char>)
    requires
        forall|i: int| 0 <= i < slashes.len() ==> #[trigger] slashes[i] == '/',
        last_filled(split_at_each(text, '/')) == Some(code),
    ensures
        last_filled(split_at_each(text + slashes, '/')) == Some(code),
    decreases slashes.len(),
{
    if slashes.len() > 0 {
        let init = slashes.drop_last();
        let none = Seq::<char>::empty();
        assert(slashes[slashes.len() - 1] == '/');
        assert forall|i: int| 0 <= i < init.len() implies #[trigger] init[i] == '/' by {
            assert(init[i] == slashes[i]);
        }
        lemma_slashes(text, init, code);
        assert(text + slashes =~= (text + init) + seq!['/'] + none);
        lemma_split(text + init, none, '/');
        a_text_is_split_at_each_mark(none, none, '/');
        let parts = split_at_each(text + init, '/');
        assert((parts + seq![none]).drop_last() =~= parts);
        assert((parts + seq![none]).last() == none);
    } else {
        assert(text + slashes =~= text);
    }
}

/// The code of a tree is the last part of the path that is not empty, whatever slashes follow.
pub proof fn the_last_part_of_the_path_is_the_code(
    link: LinkTexts,
    front: Seq<char>,
    code: Seq<char>,
    slashes: Seq<char>,
)
    requires
        leads_to_the_game(link),
        link.path == front + "/"@ + (code + slashes),
        begins_with(link.path, "/"@),
        code.len() > 0,
        !code.contains('/'),
        forall|i: int| 0 <= i < slashes.len() ==> #[trigger] slashes[i] == '/',
    ensures
        code_in(link) == Ok::<Seq<char>, TreeError>(code),
        tree_at(Some(link)) == match url_safe_bytes(code) {
            Some(bytes) => coded_tree(bytes),
            None => match url_safe_no_pad_bytes(code) {
                Some(bytes) => coded_tree(bytes),
                None => Err::<TreeContent, TreeError>(TreeError::NotBase64),
            },
        },
{
    reveal_strlit("/");
    let none = Seq::<char>::empty();
    a_text_is_split_at_each_mark(code, none, '/');
    let one = seq![code];
    assert(one.last() == code);
    if front.len() == 0 {
        assert(link.path =~= "/"@ + (code + slashes));
        a_text_begins_with_its_front("/"@, code + slashes);
        lemma_slashes(code, slashes, code);
    } else {
        assert(link.path.subrange(0, 1)[0] == link.path[0]);
        assert(front[0] == '/');
        let rest = front.skip(1) + seq!['/'] + code;
        assert(link.path =~= "/"@ + (rest + slashes));
        a_text_begins_with_its_front("/"@, rest + slashes);
        lemma_split(front.skip(1), code, '/');
        let parts = split_at_each(front.skip(1), '/');
        assert((parts + one).last() == code);
        lemma_slashes(rest, slashes, code);
    }
}

} // verus!
