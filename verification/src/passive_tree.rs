//! Passive skill trees: the links that carry them and the bytes that they are coded in.

use vstd::prelude::*;
use vstd::string::*;
use crate::encoding::{
    decode_url_safe, decode_url_safe_no_pad, url_safe_bytes, url_safe_no_pad_bytes,
};
use crate::links::{parsed_link, url_parse, Link, LinkTexts};
use crate::number::{decimal, write_u64};
use crate::text::{
    behind, contains, holds, same_text, split, split_at_each, strip_prefix, trim, trimmed, views,
};

verus! {

/// What a coded passive tree says.
#[derive(Debug, Clone, PartialEq, Eq)]
pub struct PassiveTreeInfo {
    pub version: u32,
    pub class_id: u8,
    pub ascendancy_id: u8,
    pub bloodline_id: u8,
    pub allocated_nodes: usize,
    pub extended_nodes: usize,
    pub masteries: usize,
    pub allocated_node_ids: Vec<u16>,
    pub extended_node_ids: Vec<u16>,
}

/// Why no passive tree is read.
#[derive(Debug, Clone, Copy, PartialEq, Eq, Structural)]
pub enum TreeError {
    InvalidUrl,
    NotOfficial,
    NoCode,
    NotBase64,
    Incomplete,
    NodesIncomplete,
    MasteriesIncomplete,
    UnsupportedVersion(u32),
}

// ---------------------------------------------------------------- bytes

/// The content of a coded passive tree.
pub struct TreeContent {
    pub version: u32,
    pub class_id: u8,
    pub ascendancy_id: u8,
    pub bloodline_id: u8,
    pub nodes: Seq<u16>,
    pub extended: Seq<u16>,
    pub masteries: nat,
}

impl View for PassiveTreeInfo {
    type V = TreeContent;

    open spec fn view(&self) -> TreeContent {
        TreeContent {
            version: self.version,
            class_id: self.class_id,
            ascendancy_id: self.ascendancy_id,
            bloodline_id: self.bloodline_id,
            nodes: self.allocated_node_ids@,
            extended: self.extended_node_ids@,
            masteries: self.masteries as nat,
        }
    }
}

/// Whether the numbers of nodes are those of the lists of nodes.
pub open spec fn counts_its_nodes(info: PassiveTreeInfo) -> bool {
    &&& info.allocated_nodes == info.allocated_node_ids@.len()
    &&& info.extended_nodes == info.extended_node_ids@.len()
}

/// The number that two bytes make, the higher one first.
pub open spec fn pair_value(high: u8, low: u8) -> u16 {
    (high * 256 + low) as u16
}

/// The number that four bytes make, the highest one first.
pub open spec fn word_value(bytes: Seq<u8>) -> u32 {
    (bytes[0] * 0x100_0000 + bytes[1] * 0x1_0000 + bytes[2] * 0x100 + bytes[3]) as u32
}

/// The numbers that `count` pairs of bytes make from position `at` on.
pub open spec fn pair_values(bytes: Seq<u8>, at: int, count: nat) -> Seq<u16> {
    Seq::new(count, |i: int| pair_value(bytes[at + 2 * i], bytes[at + 2 * i + 1]))
}

/// A list of numbers behind a byte that counts them, and the position behind the list.
pub open spec fn counted_list(bytes: Seq<u8>, at: int) -> Result<(Seq<u16>, int), TreeError> {
    if at >= bytes.len() {
        Err(TreeError::Incomplete)
    } else if bytes.len() - (at + 1) < 2 * bytes[at] {
        Err(TreeError::NodesIncomplete)
    } else {
        Ok((pair_values(bytes, at + 1, bytes[at] as nat), at + 1 + 2 * bytes[at]))
    }
}

/// Two counted lists, one behind the other, and the position behind both.
pub open spec fn two_lists(bytes: Seq<u8>, at: int) -> Result<
    (Seq<u16>, Seq<u16>, int),
    TreeError,
> {
    match counted_list(bytes, at) {
        Err(e) => Err(e),
        Ok((first, behind_first)) => match counted_list(bytes, behind_first) {
            Err(e) => Err(e),
            Ok((second, end)) => Ok((first, second, end)),
        },
    }
}

/// How many masteries are counted at `at`, each of which takes four more bytes.
pub open spec fn mastery_count(bytes: Seq<u8>, at: int) -> Result<nat, TreeError> {
    if at >= bytes.len() {
        Err(TreeError::Incomplete)
    } else if bytes.len() - (at + 1) < 4 * bytes[at] {
        Err(TreeError::MasteriesIncomplete)
    } else {
        Ok(bytes[at] as nat)
    }
}

/// The nodes, the extended nodes and the number of masteries of a tree of the given version.
pub open spec fn tree_lists(version: u32, bytes: Seq<u8>) -> Result<
    (Seq<u16>, Seq<u16>, nat),
    TreeError,
> {
    if version == 6 {
        match two_lists(bytes, 6) {
            Err(e) => Err(e),
            Ok((nodes, extended, end)) => match mastery_count(bytes, end) {
                Err(e) => Err(e),
                Ok(masteries) => Ok((nodes, extended, masteries)),
            },
        }
    } else if version == 5 {
        match two_lists(bytes, 6) {
            Err(e) => Err(e),
            Ok((nodes, extended, _)) => Ok((nodes, extended, 0)),
        }
    } else if version == 4 {
        Ok((pair_values(bytes, 7, ((bytes.len() - 7) / 2) as nat), Seq::empty(), 0))
    } else {
        Err(TreeError::UnsupportedVersion(version))
    }
}

/// The tree that the bytes code: a version, a class, an ascendancy with a bloodline, and the lists
/// of the version.
pub open spec fn coded_tree(bytes: Seq<u8>) -> Result<TreeContent, TreeError> {
    if bytes.len() < 7 {
        Err(TreeError::Incomplete)
    } else {
        let version = word_value(bytes);
        match tree_lists(version, bytes) {
            Err(e) => Err(e),
            Ok((nodes, extended, masteries)) => Ok(
                TreeContent {
                    version,
                    class_id: bytes[4],
                    ascendancy_id: bytes[5] % 4,
                    bloodline_id: bytes[5] / 4,
                    nodes,
                    extended,
                    masteries,
                },
            ),
        }
    }
}

fn read_u8(bytes: &Vec<u8>, cursor: &mut usize) -> (r: Result<u8, TreeError>)
    ensures
        match r {
            Ok(value) => {
                &&& *old(cursor) < bytes@.len()
                &&& value == bytes@[*old(cursor) as int]
                &&& *final(cursor) == *old(cursor) + 1
            },
            Err(e) => {
                &&& *old(cursor) >= bytes@.len()
                &&& e == TreeError::Incomplete
                &&& *final(cursor) == *old(cursor)
            },
        },
{
    if *cursor < bytes.len() {
        let value = bytes[*cursor];
        *cursor = *cursor + 1;
        Ok(value)
    } else {
        Err(TreeError::Incomplete)
    }
}

fn read_pairs(bytes: &Vec<u8>, at: usize, count: usize) -> (r: Vec<u16>)
    requires
        at + 2 * count <= bytes@.len(),
    ensures
        r@ == pair_values(bytes@, at as int, count as nat),
{
    let size: usize = bytes.len();
    let mut values: Vec<u16> = Vec::new();
    let mut i: usize = 0;
    while i < count
        invariant
            i <= count,
            size == bytes@.len(),
            at + 2 * count <= size,
            values@ == pair_values(bytes@, at as int, i as nat),
        decreases count - i,
    {
        let high: u16 = bytes[at + 2 * i] as u16;
        let low: u16 = bytes[at + 2 * i + 1] as u16;
        values.push(high * 256 + low);
        i = i + 1;
        assert(values@ =~= pair_values(bytes@, at as int, i as nat));
    }
    values
}

fn read_counted_u16_values(bytes: &Vec<u8>, cursor: &mut usize) -> (r: Result<Vec<u16>, TreeError>)
    ensures
        match r {
            Ok(values) => counted_list(bytes@, *old(cursor) as int) == Ok::<
                (Seq<u16>, int),
                TreeError,
            >((values@, *final(cursor) as int)),
            Err(e) => {
                &&& counted_list(bytes@, *old(cursor) as int) == Err::<(Seq<u16>, int), TreeError>(e)
                &&& *final(cursor) == if *old(cursor) < bytes@.len() {
                    *old(cursor) + 1
                } else {
                    *old(cursor) as int
                }
            },
        },
{
    let count: usize = read_u8(bytes, cursor)? as usize;
    if bytes.len() - *cursor < 2 * count {
        return Err(TreeError::NodesIncomplete);
    }
    let values = read_pairs(bytes, *cursor, count);
    *cursor = *cursor + 2 * count;
    Ok(values)
}

/// The tree that the bytes code.
pub fn read_tree(bytes: &Vec<u8>) -> (r: Result<PassiveTreeInfo, TreeError>)
    ensures
        match r {
            Ok(info) => {
                &&& coded_tree(bytes@) == Ok::<TreeContent, TreeError>(info@)
                &&& counts_its_nodes(info)
            },
            Err(e) => coded_tree(bytes@) == Err::<TreeContent, TreeError>(e),
        },
{
    if bytes.len() < 7 {
        return Err(TreeError::Incomplete);
    }
    let version: u32 = bytes[0] as u32 * 0x100_0000 + bytes[1] as u32 * 0x1_0000 + bytes[2] as u32
        * 0x100 + bytes[3] as u32;
    assert(version == word_value(bytes@));
    let class_id = bytes[4];
    let ascendancy_data: u8 = bytes[5];
    assert(ascendancy_data & 0x03 == ascendancy_data % 4) by (bit_vector);
    assert(ascendancy_data >> 2 == ascendancy_data / 4) by (bit_vector);
    let ascendancy_id: u8 = ascendancy_data & 0x03;
    let bloodline_id: u8 = ascendancy_data >> 2;
    let mut cursor: usize = 6;
    let allocated_node_ids: Vec<u16>;
    let extended_node_ids: Vec<u16>;
    let masteries: usize;
    if version == 6 {
        allocated_node_ids = read_counted_u16_values(bytes, &mut cursor)?;
        extended_node_ids = read_counted_u16_values(bytes, &mut cursor)?;
        masteries = read_u8(bytes, &mut cursor)? as usize;
        if bytes.len() - cursor < 4 * masteries {
            return Err(TreeError::MasteriesIncomplete);
        }
    } else if version == 5 {
        allocated_node_ids = read_counted_u16_values(bytes, &mut cursor)?;
        extended_node_ids = read_counted_u16_values(bytes, &mut cursor)?;
        masteries = 0;
    } else if version == 4 {
        allocated_node_ids = read_pairs(bytes, 7, (bytes.len() - 7) / 2);
        extended_node_ids = Vec::new();
        masteries = 0;
    } else {
        return Err(TreeError::UnsupportedVersion(version));
    }
    Ok(
        PassiveTreeInfo {
            version,
            class_id,
            ascendancy_id,
            bloodline_id,
            allocated_nodes: allocated_node_ids.len(),
            extended_nodes: extended_node_ids.len(),
            masteries,
            allocated_node_ids,
            extended_node_ids,
        },
    )
}

/// The bytes of a list of numbers, two for each, the higher one first.
pub open spec fn pair_bytes(values: Seq<u16>) -> Seq<u8> {
    Seq::new(
        2 * values.len(),
        |i: int|
            if i % 2 == 0 {
                (values[i / 2] / 256) as u8
            } else {
                (values[i / 2] % 256) as u8
            },
    )
}

/// The bytes of a counted list.
pub open spec fn counted_bytes(values: Seq<u16>) -> Seq<u8> {
    seq![values.len() as u8] + pair_bytes(values)
}

/// The bytes in front of the lists.
pub open spec fn tree_header(version: u8, class_id: u8, ascendancy_id: u8, bloodline_id: u8) -> Seq<
    u8,
> {
    seq![0u8, 0, 0, version, class_id, (4 * bloodline_id + ascendancy_id) as u8]
}

proof fn lemma_pairs(front: Seq<u8>, values: Seq<u16>, rest: Seq<u8>)
    ensures
        pair_values(front + pair_bytes(values) + rest, front.len() as int, values.len()) == values,
{
    let bytes = front + pair_bytes(values) + rest;
    let at = front.len() as int;
    let found = pair_values(bytes, at, values.len());
    assert forall|i: int| 0 <= i < values.len() implies found[i] == values[i] by {
        assert((2 * i) % 2 == 0 && (2 * i) / 2 == i);
        assert((2 * i + 1) % 2 == 1 && (2 * i + 1) / 2 == i);
        assert(bytes[at + 2 * i] == pair_bytes(values)[2 * i]);
        assert(bytes[at + 2 * i + 1] == pair_bytes(values)[2 * i + 1]);
    }
    assert(found =~= values);
}

proof fn lemma_counted_list(front: Seq<u8>, values: Seq<u16>, rest: Seq<u8>)
    requires
        values.len() < 256,
    ensures
        counted_list(front + counted_bytes(values) + rest, front.len() as int) == Ok::<
            (Seq<u16>, int),
            TreeError,
        >((values, (front.len() + 1 + 2 * values.len()) as int)),
{
    let bytes = front + counted_bytes(values) + rest;
    let count = seq![values.len() as u8];
    assert(bytes[front.len() as int] == values.len() as u8);
    assert(bytes =~= (front + count) + pair_bytes(values) + rest);
    lemma_pairs(front + count, values, rest);
}

proof fn lemma_two_lists(front: Seq<u8>, a: Seq<u16>, b: Seq<u16>, rest: Seq<u8>)
    requires
        a.len() < 256,
        b.len() < 256,
    ensures
        two_lists(front + counted_bytes(a) + counted_bytes(b) + rest, front.len() as int) == Ok::<
            (Seq<u16>, Seq<u16>, int),
            TreeError,
        >((a, b, (front.len() + 2 + 2 * a.len() + 2 * b.len()) as int)),
{
    let first = counted_bytes(a);
    let second = counted_bytes(b);
    let bytes = front + first + second + rest;
    assert(bytes =~= front + first + (second + rest));
    lemma_counted_list(front, a, second + rest);
    lemma_counted_list(front + first, b, rest);
    assert((front + first).len() == front.len() + 1 + 2 * a.len());
}

proof fn lemma_header(
    version: u8,
    class_id: u8,
    ascendancy_id: u8,
    bloodline_id: u8,
    bytes: Seq<u8>,
    rest: Seq<u8>,
)
    requires
        ascendancy_id < 4,
        bloodline_id < 64,
        bytes == tree_header(version, class_id, ascendancy_id, bloodline_id) + rest,
    ensures
        bytes.len() == 6 + rest.len(),
        word_value(bytes) == version,
        bytes[4] == class_id,
        bytes[5] % 4 == ascendancy_id,
        bytes[5] / 4 == bloodline_id,
{
    let header = tree_header(version, class_id, ascendancy_id, bloodline_id);
    assert forall|i: int| 0 <= i < 6 implies #[trigger] bytes[i] == header[i] by {}
    assert(bytes[0] == header[0] && bytes[1] == header[1] && bytes[2] == header[2] && bytes[3]
        == header[3] && bytes[4] == header[4] && bytes[5] == header[5]);
}

/// What is written in the form of version six is read back, whatever the masteries are and whatever
/// stands behind them.
pub proof fn version_six_reads_back(tree: TreeContent, masteries: Seq<u8>, rest: Seq<u8>)
    requires
        tree.version == 6,
        tree.ascendancy_id < 4,
        tree.bloodline_id < 64,
        tree.nodes.len() < 256,
        tree.extended.len() < 256,
        tree.masteries < 256,
        masteries.len() == 4 * tree.masteries,
    ensures
        coded_tree(
            tree_header(6, tree.class_id, tree.ascendancy_id, tree.bloodline_id) + counted_bytes(
                tree.nodes,
            ) + counted_bytes(tree.extended) + seq![tree.masteries as u8] + masteries + rest,
        ) == Ok::<TreeContent, TreeError>(tree),
{
    let header = tree_header(6, tree.class_id, tree.ascendancy_id, tree.bloodline_id);
    let first = counted_bytes(tree.nodes);
    let second = counted_bytes(tree.extended);
    let third = seq![tree.masteries as u8] + masteries + rest;
    let bytes = header + first + second + seq![tree.masteries as u8] + masteries + rest;
    assert(bytes =~= header + first + second + third);
    assert(bytes =~= header + (first + second + third));
    lemma_header(
        6,
        tree.class_id,
        tree.ascendancy_id,
        tree.bloodline_id,
        bytes,
        first + second + third,
    );
    lemma_two_lists(header, tree.nodes, tree.extended, third);
    assert(bytes[(header + first + second).len() as int] == third[0]);
}

/// What is written in the form of version five is read back, whatever stands behind it.
pub proof fn version_five_reads_back(tree: TreeContent, rest: Seq<u8>)
    requires
        tree.version == 5,
        tree.ascendancy_id < 4,
        tree.bloodline_id < 64,
        tree.nodes.len() < 256,
        tree.extended.len() < 256,
        tree.masteries == 0,
    ensures
        coded_tree(
            tree_header(5, tree.class_id, tree.ascendancy_id, tree.bloodline_id) + counted_bytes(
                tree.nodes,
            ) + counted_bytes(tree.extended) + rest,
        ) == Ok::<TreeContent, TreeError>(tree),
{
    let header = tree_header(5, tree.class_id, tree.ascendancy_id, tree.bloodline_id);
    let first = counted_bytes(tree.nodes);
    let second = counted_bytes(tree.extended);
    let bytes = header + first + second + rest;
    assert(bytes =~= header + (first + second + rest));
    lemma_header(
        5,
        tree.class_id,
        tree.ascendancy_id,
        tree.bloodline_id,
        bytes,
        first + second + rest,
    );
    lemma_two_lists(header, tree.nodes, tree.extended, rest);
}

/// What is written in the form of version four, with any byte between the header and the nodes, is
/// read back.
pub proof fn version_four_reads_back(tree: TreeContent, filler: u8)
    requires
        tree.version == 4,
        tree.ascendancy_id < 4,
        tree.bloodline_id < 64,
        tree.extended.len() == 0,
        tree.masteries == 0,
    ensures
        coded_tree(
            tree_header(4, tree.class_id, tree.ascendancy_id, tree.bloodline_id) + seq![filler]
                + pair_bytes(tree.nodes),
        ) == Ok::<TreeContent, TreeError>(tree),
{
    let header = tree_header(4, tree.class_id, tree.ascendancy_id, tree.bloodline_id);
    let bytes = header + seq![filler] + pair_bytes(tree.nodes);
    assert(bytes =~= header + (seq![filler] + pair_bytes(tree.nodes)));
    lemma_header(
        4,
        tree.class_id,
        tree.ascendancy_id,
        tree.bloodline_id,
        bytes,
        seq![filler] + pair_bytes(tree.nodes),
    );
    lemma_pairs(header + seq![filler], tree.nodes, Seq::empty());
    assert(bytes =~= (header + seq![filler]) + pair_bytes(tree.nodes) + Seq::<u8>::empty());
    assert((header + seq![filler]).len() == 7);
    assert((bytes.len() - 7) / 2 == tree.nodes.len());
    assert(tree.extended =~= Seq::empty());
}

// ---------------------------------------------------------------- links

/// Whether a link leads to a passive tree on the official site.
pub open spec fn is_official(link: LinkTexts) -> bool {
    &&& link.scheme == "https"@
    &&& link.host == Some("pathofexile.com"@) || link.host == Some("www.pathofexile.com"@)
    &&& holds(link.path, "passive-skill-tree"@) || holds(
        link.path,
        "fullscreen-passive-skill-tree"@,
    )
}

/// The last text of a list that is not empty.
pub open spec fn last_filled(parts: Seq<Seq<char>>) -> Option<Seq<char>>
    decreases parts.len(),
{
    if parts.len() == 0 {
        None
    } else if parts.last().len() > 0 {
        Some(parts.last())
    } else {
        last_filled(parts.drop_last())
    }
}

/// The code of the tree: the last segment of the path that is not empty.
pub open spec fn code_in(link: LinkTexts) -> Result<Seq<char>, TreeError> {
    if !is_official(link) {
        Err(TreeError::NotOfficial)
    } else {
        match behind(link.path, "/"@) {
            None => Err(TreeError::NoCode),
            Some(segments) => match last_filled(split_at_each(segments, '/')) {
                None => Err(TreeError::NoCode),
                Some(code) => Ok(code),
            },
        }
    }
}

/// The code of the tree that a link leads to.
pub fn tree_code(link: &Link) -> (r: Result<String, TreeError>)
    ensures
        match r {
            Ok(code) => code_in(link@) == Ok::<Seq<char>, TreeError>(code@),
            Err(e) => code_in(link@) == Err::<Seq<char>, TreeError>(e),
        },
{
    let host_is_official = match &link.host {
        Some(host) => same_text(host, "pathofexile.com") || same_text(host, "www.pathofexile.com"),
        None => false,
    };
    if !same_text(&link.scheme, "https") || !host_is_official || (!contains(
        &link.path,
        "passive-skill-tree",
    ) && !contains(&link.path, "fullscreen-passive-skill-tree")) {
        return Err(TreeError::NotOfficial);
    }
    let segments = match strip_prefix(&link.path, "/") {
        Some(rest) => split(rest, '/'),
        None => {
            return Err(TreeError::NoCode);
        },
    };
    let ghost parts = views(segments@);
    let mut i: usize = segments.len();
    assert(parts.take(i as int) =~= parts);
    while i > 0
        invariant
            i <= segments@.len(),
            parts == views(segments@),
            last_filled(parts.take(i as int)) == last_filled(parts),
            is_official(link@),
            behind(link@.path, "/"@) matches Some(rest) && parts == split_at_each(rest, '/'),
        decreases i,
    {
        i = i - 1;
        assert(parts.take(i + 1).last() == parts[i as int]);
        assert(parts.take(i + 1).drop_last() =~= parts.take(i as int));
        if !segments[i].as_str().is_empty() {
            return Ok(segments[i].clone());
        }
    }
    Err(TreeError::NoCode)
}

/// The bytes of a code, where `padded` and `unpadded` are what the two ways of reading it give.
pub open spec fn code_bytes(padded: Option<Seq<u8>>, unpadded: Option<Seq<u8>>) -> Result<
    Seq<u8>,
    TreeError,
> {
    match (padded, unpadded) {
        (Some(bytes), _) => Ok(bytes),
        (None, Some(bytes)) => Ok(bytes),
        (None, None) => Err(TreeError::NotBase64),
    }
}

/// The tree that a link leads to.
pub open spec fn tree_at(link: Option<LinkTexts>) -> Result<TreeContent, TreeError> {
    match link {
        None => Err(TreeError::InvalidUrl),
        Some(link) => match code_in(link) {
            Err(e) => Err(e),
            Ok(code) => match code_bytes(url_safe_bytes(code), url_safe_no_pad_bytes(code)) {
                Err(e) => Err(e),
                Ok(bytes) => coded_tree(bytes),
            },
        },
    }
}

/// The tree that a text links to, with or without white space around it.
pub open spec fn tree_in(input: Seq<char>) -> Result<TreeContent, TreeError> {
    tree_at(parsed_link(trimmed(input)))
}

/// A tree is read from official links alone.
pub proof fn only_official_links_carry_trees(link: Option<LinkTexts>)
    ensures
        tree_at(link) is Ok ==> link is Some && is_official(link->0),
{
}

/// The tree that an official link carries.
pub fn inspect_passive_tree_url(input: &str) -> (r: Result<PassiveTreeInfo, TreeError>)
    ensures
        match r {
            Ok(info) => {
                &&& tree_in(input@) == Ok::<TreeContent, TreeError>(info@)
                &&& counts_its_nodes(info)
            },
            Err(e) => tree_in(input@) == Err::<TreeContent, TreeError>(e),
        },
{
    let link = match url_parse(trim(input)) {
        Ok(link) => link,
        Err(_) => {
            return Err(TreeError::InvalidUrl);
        },
    };
    let code = tree_code(&link)?;
    let bytes = match decode_url_safe(&code) {
        Ok(bytes) => bytes,
        Err(_) => match decode_url_safe_no_pad(&code) {
            Ok(bytes) => bytes,
            Err(_) => {
                return Err(TreeError::NotBase64);
            },
        },
    };
    read_tree(&bytes)
}

impl TreeError {
    /// What a user is told.
    pub open spec fn message_text(self) -> Seq<char> {
        match self {
            TreeError::InvalidUrl => "invalid passive-tree URL"@,
            TreeError::NotOfficial => "use an official Path of Exile passive skill tree URL"@,
            TreeError::NoCode => "passive-tree URL has no encoded tree"@,
            TreeError::NotBase64 => "passive-tree data is not valid base64url"@,
            TreeError::Incomplete => "passive-tree data is incomplete"@,
            TreeError::NodesIncomplete => "passive-tree node data is incomplete"@,
            TreeError::MasteriesIncomplete => "passive-tree mastery data is incomplete"@,
            TreeError::UnsupportedVersion(version) => "unsupported passive-tree format version "@
                + decimal(version as nat),
        }
    }

    /// What a user is told.
    pub fn message(&self) -> (r: String)
        ensures
            r@ == self.message_text(),
    {
        match self {
            TreeError::InvalidUrl => "invalid passive-tree URL".to_string(),
            TreeError::NotOfficial => {
                "use an official Path of Exile passive skill tree URL".to_string()
            },
            TreeError::NoCode => "passive-tree URL has no encoded tree".to_string(),
            TreeError::NotBase64 => "passive-tree data is not valid base64url".to_string(),
            TreeError::Incomplete => "passive-tree data is incomplete".to_string(),
            TreeError::NodesIncomplete => "passive-tree node data is incomplete".to_string(),
            TreeError::MasteriesIncomplete => "passive-tree mastery data is incomplete".to_string(),
            TreeError::UnsupportedVersion(version) => {
                let mut text = "unsupported passive-tree format version ".to_string();
                text.append(&write_u64(*version as u64));
                text
            },
        }
    }
}

} // verus!
