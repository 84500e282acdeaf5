//! Paths as lists of their parts, and the order of paths.

use vstd::prelude::*;
use vstd::string::*;
use crate::order::{
    comes_before, order_is_strict, order_is_total, order_is_transitive, precedes,
};
use crate::text::same_text;

verus! {

// ---------------------------------------------------------------- parts

/// The rank of a prefix `\\?\name`.
pub const VERBATIM_RANK: u8 = 0;

/// The rank of both parts of a prefix `\\?\UNC\server\share`.
pub const VERBATIM_SHARE_RANK: u8 = 1;

/// The rank of a prefix `\\?\C:`.
pub const VERBATIM_DISK_RANK: u8 = 2;

/// The rank of a prefix `\\.\name`.
pub const DEVICE_RANK: u8 = 3;

/// The rank of both parts of a prefix `\\server\share`.
pub const SHARE_RANK: u8 = 4;

/// The rank of a prefix `C:`.
pub const DISK_RANK: u8 = 5;

/// The rank of the root directory.
pub const ROOT_RANK: u8 = 6;

/// The rank of the current directory.
pub const CURRENT_RANK: u8 = 7;

/// The rank of a step to the parent directory.
pub const PARENT_RANK: u8 = 8;

/// The rank of a name.
pub const NAME_RANK: u8 = 9;

/// A part of a path: a prefix, the root, a step or a name.
#[derive(Debug, PartialEq, Eq)]
pub struct PathPart {
    pub rank: u8,
    pub name: String,
}

impl View for PathPart {
    type V = (u8, Seq<char>);

    open spec fn view(&self) -> (u8, Seq<char>) {
        (self.rank, self.name@)
    }
}

impl Clone for PathPart {
    fn clone(&self) -> (r: Self)
        ensures
            r@ == self@,
    {
        PathPart { rank: self.rank, name: self.name.clone() }
    }
}

/// The ranks and names of the parts of a path.
pub open spec fn part_texts(parts: Seq<PathPart>) -> Seq<(u8, Seq<char>)> {
    parts.map_values(|p: PathPart| p@)
}

/// The parts that are made of names.
pub open spec fn name_parts(names: Seq<Seq<char>>) -> Seq<(u8, Seq<char>)> {
    names.map_values(|n: Seq<char>| (NAME_RANK, n))
}

/// A copy of the parts of a path.
pub fn copy_parts(parts: &Vec<PathPart>) -> (r: Vec<PathPart>)
    ensures
        part_texts(r@) == part_texts(parts@),
{
    let mut out: Vec<PathPart> = Vec::new();
    let mut i: usize = 0;
    while i < parts.len()
        invariant
            i <= parts@.len(),
            part_texts(out@) == part_texts(parts@).take(i as int),
        decreases parts@.len() - i,
    {
        let ghost before = part_texts(out@);
        out.push(parts[i].clone());
        i = i + 1;
        assert(part_texts(out@) =~= before.push(parts@[i - 1]@));
        assert(part_texts(parts@).take(i as int) =~= before.push(parts@[i - 1]@));
    }
    assert(part_texts(parts@).take(i as int) =~= part_texts(parts@));
    out
}

// ---------------------------------------------------------------- the order of paths

/// Whether a part comes before another one: by rank, and parts of one rank by name.
pub open spec fn part_before(a: (u8, Seq<char>), b: (u8, Seq<char>)) -> bool {
    a.0 < b.0 || a.0 == b.0 && precedes(a.1, b.1)
}

/// Whether a path comes before another one: by the first part in which they differ, and a path
/// before those that it begins.
pub open spec fn path_before(a: Seq<(u8, Seq<char>)>, b: Seq<(u8, Seq<char>)>) -> bool
    decreases a.len(),
{
    if b.len() == 0 {
        false
    } else if a.len() == 0 {
        true
    } else if a[0] != b[0] {
        part_before(a[0], b[0])
    } else {
        path_before(a.skip(1), b.skip(1))
    }
}

/// No path comes before itself.
pub proof fn path_order_is_strict(a: Seq<(u8, Seq<char>)>)
    ensures
        !path_before(a, a),
    decreases a.len(),
{
    if a.len() > 0 {
        path_order_is_strict(a.skip(1));
    }
}

/// What comes before a path comes before all that come after it.
pub proof fn path_order_is_transitive(
    a: Seq<(u8, Seq<char>)>,
    b: Seq<(u8, Seq<char>)>,
    c: Seq<(u8, Seq<char>)>,
)
    requires
        path_before(a, b),
        path_before(b, c),
    ensures
        path_before(a, c),
    decreases a.len(),
{
    if a.len() > 0 {
        if a[0] == b[0] && b[0] == c[0] {
            path_order_is_transitive(a.skip(1), b.skip(1), c.skip(1));
        } else if a[0] != b[0] && b[0] != c[0] {
            if a[0].0 == b[0].0 && b[0].0 == c[0].0 {
                order_is_transitive(a[0].1, b[0].1, c[0].1);
                order_is_strict(a[0].1);
            }
        }
    }
}

/// Of two paths that differ, one comes before the other.
pub proof fn path_order_is_total(a: Seq<(u8, Seq<char>)>, b: Seq<(u8, Seq<char>)>)
    requires
        a != b,
    ensures
        path_before(a, b) || path_before(b, a),
    decreases a.len(),
{
    if a.len() > 0 && b.len() > 0 {
        if a[0] == b[0] {
            assert(a =~= seq![a[0]] + a.skip(1));
            assert(b =~= seq![b[0]] + b.skip(1));
            path_order_is_total(a.skip(1), b.skip(1));
        } else if a[0].0 == b[0].0 {
            order_is_total(a[0].1, b[0].1);
        }
    } else if a.len() == 0 && b.len() == 0 {
        assert(a =~= b);
    }
}

/// How a path stands to another one.
#[derive(Debug, Clone, Copy, PartialEq, Eq, Structural)]
pub enum PathOrder {
    /// It comes before the other one.
    Before,
    /// It is the other one.
    Same,
    /// It comes after the other one.
    After,
}

/// How a path stands to another one.
pub open spec fn path_order_of(a: Seq<(u8, Seq<char>)>, b: Seq<(u8, Seq<char>)>) -> PathOrder {
    if a == b {
        PathOrder::Same
    } else if path_before(a, b) {
        PathOrder::Before
    } else {
        PathOrder::After
    }
}

/// How a path stands to another one.
pub fn path_order(a: &Vec<PathPart>, b: &Vec<PathPart>) -> (r: PathOrder)
    ensures
        r == path_order_of(part_texts(a@), part_texts(b@)),
{
    let ghost x = part_texts(a@);
    let ghost y = part_texts(b@);
    let mut i: usize = 0;
    assert(x.skip(0) =~= x && y.skip(0) =~= y);
    while i < a.len() && i < b.len()
        invariant
            i <= a@.len(),
            i <= b@.len(),
            x == part_texts(a@),
            y == part_texts(b@),
            x.take(i as int) == y.take(i as int),
            path_before(x.skip(i as int), y.skip(i as int)) == path_before(x, y),
        decreases a@.len() - i,
    {
        proof {
            assert(x.skip(i as int)[0] == a@[i as int]@);
            assert(y.skip(i as int)[0] == b@[i as int]@);
            assert(x[i as int] == a@[i as int]@ && y[i as int] == b@[i as int]@);
            assert(x.skip(i as int).skip(1) =~= x.skip(i + 1));
            assert(y.skip(i as int).skip(1) =~= y.skip(i + 1));
        }
        if a[i].rank < b[i].rank {
            return PathOrder::Before;
        }
        if a[i].rank > b[i].rank {
            return PathOrder::After;
        }
        if !same_text(&a[i].name, &b[i].name) {
            return if comes_before(&a[i].name, &b[i].name) {
                PathOrder::Before
            } else {
                PathOrder::After
            };
        }
        proof {
            assert(x.take(i + 1) =~= x.take(i as int).push(x[i as int]));
            assert(y.take(i + 1) =~= y.take(i as int).push(y[i as int]));
        }
        i = i + 1;
    }
    assert(x.skip(i as int).len() == a@.len() - i && y.skip(i as int).len() == b@.len() - i);
    if i < a.len() {
        PathOrder::After
    } else if i < b.len() {
        PathOrder::Before
    } else {
        assert(x.take(i as int) =~= x && y.take(i as int) =~= y);
        PathOrder::Same
    }
}

} // verus!
