//! Where the game keeps its client log, and which processes are the game.

use vstd::prelude::*;
use vstd::string::*;
use vstd::utf8::encode_utf8;
use crate::paths::{
    copy_parts, name_parts, part_texts, path_before, path_order, path_order_is_strict,
    path_order_is_total, path_order_is_transitive, PathOrder, PathPart, NAME_RANK,
};
use crate::text::{
    alike, begins_with, join, joined, lowered, name_views, same_text, starts_with, to_lowercase,
    views,
};

verus! {

// ---------------------------------------------------------------- processes

/// Whether a process of this name is the game, whatever the case of its letters. A name may come
/// shortened, as Linux shortens it to fifteen bytes.
pub open spec fn names_the_game(name: Seq<char>) -> bool {
    let name = lowered(name);
    ||| name == "pathofexile"@
    ||| name == "pathofexile.exe"@
    ||| begins_with(name, "pathofexile_"@)
    ||| begins_with(name, "pathofexilesteam"@)
    ||| begins_with(name, "pathofexile"@) && encode_utf8(name).len() >= 13
}

/// Whether a process of this name is the game.
pub fn is_poe_process_name(name: &str) -> (r: bool)
    ensures
        r == names_the_game(name@),
{
    let normalized = to_lowercase(name);
    let name = normalized.as_str();
    same_text(name, "pathofexile") || same_text(name, "pathofexile.exe") || starts_with(
        name,
        "pathofexile_",
    ) || starts_with(name, "pathofexilesteam") || (starts_with(name, "pathofexile")
        && name.as_bytes().len() >= 13)
}

/// Whether one of the running processes is the game.
pub open spec fn game_runs(process_names: Seq<String>) -> bool {
    exists|i: int| 0 <= i < process_names.len() && names_the_game(#[trigger] process_names[i]@)
}

/// Whether one of the running processes is the game.
pub fn is_poe_running(process_names: &Vec<String>) -> (r: bool)
    ensures
        r == game_runs(process_names@),
{
    let mut i: usize = 0;
    while i < process_names.len()
        invariant
            i <= process_names@.len(),
            forall|j: int| 0 <= j < i ==> !names_the_game(#[trigger] process_names@[j]@),
        decreases process_names@.len() - i,
    {
        if is_poe_process_name(process_names[i].as_str()) {
            return true;
        }
        i = i + 1;
    }
    false
}

/// The case of the letters in the name of a process does not matter.
pub proof fn case_does_not_matter(a: Seq<char>, b: Seq<char>)
    requires
        alike(a, b),
    ensures
        names_the_game(a) == names_the_game(b),
{
}

// ---------------------------------------------------------------- log files

/// A directory: its path as the environment writes it, and the parts of that path.
#[derive(Debug, PartialEq, Eq)]
pub struct DirectoryPath {
    pub text: String,
    pub parts: Vec<PathPart>,
}

/// The text and the parts of a path.
pub struct DirectoryContent {
    pub text: Seq<char>,
    pub parts: Seq<(u8, Seq<char>)>,
}

impl View for DirectoryPath {
    type V = DirectoryContent;

    open spec fn view(&self) -> DirectoryContent {
        DirectoryContent { text: self.text@, parts: part_texts(self.parts@) }
    }
}

impl Clone for DirectoryPath {
    fn clone(&self) -> (r: Self)
        ensures
            r@ == self@,
    {
        DirectoryPath { text: self.text.clone(), parts: copy_parts(&self.parts) }
    }
}

/// The directories that the environment names.
#[derive(Debug, PartialEq, Eq)]
pub struct LogEnvironment {
    /// `PROGRAMFILES(X86)`
    pub program_files_x86: Option<DirectoryPath>,
    /// `PROGRAMFILES`
    pub program_files: Option<DirectoryPath>,
    /// `STEAM_COMPAT_DATA_PATH`
    pub steam_compat_data: Option<DirectoryPath>,
    /// `USERPROFILE`
    pub user_profile: Option<DirectoryPath>,
    /// `HOME`
    pub home: Option<DirectoryPath>,
}

/// A file below one of the directories that the environment names: the names that lead to it, the
/// last of them its own.
#[derive(Debug, PartialEq, Eq)]
pub struct LogLocation {
    pub root: DirectoryPath,
    pub names: Vec<String>,
}

/// A directory and the names that lead from it to a file.
pub struct LocationContent {
    pub root: DirectoryContent,
    pub names: Seq<Seq<char>>,
}

impl View for LogLocation {
    type V = LocationContent;

    open spec fn view(&self) -> LocationContent {
        LocationContent { root: self.root@, names: views(self.names@) }
    }
}

impl Clone for LogLocation {
    fn clone(&self) -> (r: Self)
        ensures
            r@ == self@,
    {
        let names = self.names.clone();
        proof {
            assert forall|i: int| 0 <= i < names@.len() implies names@[i]@ == self.names@[i]@ by {
                assert(cloned(self.names@[i], names@[i]));
            }
            assert(views(names@) =~= views(self.names@));
        }
        LogLocation { root: self.root.clone(), names }
    }
}

impl LocationContent {
    /// The parts of the path of the file.
    pub open spec fn path(self) -> Seq<(u8, Seq<char>)> {
        self.root.parts + name_parts(self.names)
    }
}

impl LogLocation {
    /// The path of the file below its directory.
    pub fn relative(&self) -> (r: String)
        ensures
            r@ == joined(self@.names, "/"@),
    {
        join(&self.names, "/")
    }

    /// The parts of the path of the file.
    pub fn parts(&self) -> (r: Vec<PathPart>)
        ensures
            part_texts(r@) == self@.path(),
    {
        let mut out = copy_parts(&self.root.parts);
        let ghost front = part_texts(out@);
        let ghost back = name_parts(views(self.names@));
        let mut i: usize = 0;
        assert(front + back.take(0) =~= front);
        while i < self.names.len()
            invariant
                i <= self.names@.len(),
                back == name_parts(views(self.names@)),
                part_texts(out@) == front + back.take(i as int),
            decreases self.names@.len() - i,
        {
            let ghost before = part_texts(out@);
            out.push(PathPart { rank: NAME_RANK, name: self.names[i].clone() });
            i = i + 1;
            assert(part_texts(out@) =~= before.push((NAME_RANK, self.names@[i - 1]@)));
            assert(front + back.take(i as int) =~= before.push((NAME_RANK, self.names@[i - 1]@)));
        }
        assert(back.take(i as int) =~= back);
        out
    }
}

/// The directory and the names of each location.
pub open spec fn location_contents(locations: Seq<LogLocation>) -> Seq<LocationContent> {
    locations.map_values(|l: LogLocation| l@)
}

/// The client log in an installation directory of the game below `root`; none where the environment
/// does not name that directory.
pub open spec fn log_below(root: Option<DirectoryPath>, directory: Seq<&str>) -> Seq<
    LocationContent,
> {
    match root {
        Some(root) => seq![
            LocationContent {
                root: root@,
                names: name_views(directory) + seq!["logs"@, "Client.txt"@],
            },
        ],
        None => Seq::empty(),
    }
}

fn push_log(out: &mut Vec<LogLocation>, root: &Option<DirectoryPath>, directory: Vec<&str>)
    ensures
        location_contents(final(out)@) == location_contents(old(out)@) + log_below(
            *root,
            directory@,
        ),
{
    let ghost before = location_contents(out@);
    match root {
        Some(root) => {
            let ghost all = name_views(directory@);
            let mut names: Vec<String> = Vec::new();
            let mut i: usize = 0;
            assert(views(names@) =~= all.take(0));
            while i < directory.len()
                invariant
                    i <= directory@.len(),
                    all == name_views(directory@),
                    views(names@) == all.take(i as int),
                decreases directory@.len() - i,
            {
                let name: &str = directory[i];
                let ghost known = views(names@);
                names.push(name.to_string());
                i = i + 1;
                assert(views(names@) =~= known.push(name@));
                assert(all.take(i as int) =~= known.push(name@));
            }
            assert(all.take(i as int) =~= all);
            names.push("logs".to_string());
            names.push("Client.txt".to_string());
            assert(views(names@) =~= all + seq!["logs"@, "Client.txt"@]);
            let location = LogLocation { root: root.clone(), names };
            out.push(location);
            assert(location_contents(out@) =~= before + seq![location@]);
        },
        None => {
            assert(before + Seq::<LocationContent>::empty() =~= before);
        },
    }
}

/// Where the client log may stand: in the installations below the program directories, below the
/// Proton prefix, in the user's documents, and in the Steam libraries below the home directory.
pub open spec fn candidate_logs(environment: LogEnvironment) -> Seq<LocationContent> {
    log_below(environment.program_files_x86, seq!["Grinding Gear Games", "Path of Exile"])
        + log_below(
        environment.program_files_x86,
        seq!["Steam", "steamapps", "common", "Path of Exile"],
    ) + log_below(environment.program_files, seq!["Grinding Gear Games", "Path of Exile"])
        + log_below(
        environment.steam_compat_data,
        seq!["pfx", "drive_c", "Program Files (x86)", "Grinding Gear Games", "Path of Exile"],
    ) + log_below(environment.user_profile, seq!["Documents", "My Games", "Path of Exile"])
        + log_below(
        environment.home,
        seq![".steam", "steam", "steamapps", "common", "Path of Exile"],
    ) + log_below(
        environment.home,
        seq![
            ".steam", "steam", "steamapps", "compatdata", "238960", "pfx", "drive_c", "users",
            "steamuser", "Documents", "My Games", "Path of Exile",
        ],
    ) + log_below(
        environment.home,
        seq![".local", "share", "Steam", "steamapps", "common", "Path of Exile"],
    ) + log_below(
        environment.home,
        seq![
            ".local", "share", "Steam", "steamapps", "compatdata", "238960", "pfx", "drive_c",
            "users", "steamuser", "Documents", "My Games", "Path of Exile",
        ],
    ) + log_below(
        environment.home,
        seq![
            ".var", "app", "com.valvesoftware.Steam", ".local", "share", "Steam", "steamapps",
            "common", "Path of Exile",
        ],
    ) + log_below(
        environment.home,
        seq![
            ".var", "app", "com.valvesoftware.Steam", ".local", "share", "Steam", "steamapps",
            "compatdata", "238960", "pfx", "drive_c", "users", "steamuser", "Documents", "My Games",
            "Path of Exile",
        ],
    )
}

fn list_candidates(environment: &LogEnvironment) -> (r: Vec<LogLocation>)
    ensures
        location_contents(r@) == candidate_logs(*environment),
{
    let mut out: Vec<LogLocation> = Vec::new();
    assert(location_contents(out@) =~= Seq::empty());
    let x86 = &environment.program_files_x86;
    let home = &environment.home;
    push_log(&mut out, x86, vec!["Grinding Gear Games", "Path of Exile"]);
    push_log(&mut out, x86, vec!["Steam", "steamapps", "common", "Path of Exile"]);
    push_log(
        &mut out,
        &environment.program_files,
        vec!["Grinding Gear Games", "Path of Exile"],
    );
    push_log(
        &mut out,
        &environment.steam_compat_data,
        vec!["pfx", "drive_c", "Program Files (x86)", "Grinding Gear Games", "Path of Exile"],
    );
    push_log(&mut out, &environment.user_profile, vec!["Documents", "My Games", "Path of Exile"]);
    push_log(&mut out, home, vec![".steam", "steam", "steamapps", "common", "Path of Exile"]);
    push_log(
        &mut out,
        home,
        vec![
            ".steam", "steam", "steamapps", "compatdata", "238960", "pfx", "drive_c", "users",
            "steamuser", "Documents", "My Games", "Path of Exile",
        ],
    );
    push_log(
        &mut out,
        home,
        vec![".local", "share", "Steam", "steamapps", "common", "Path of Exile"],
    );
    push_log(
        &mut out,
        home,
        vec![
            ".local", "share", "Steam", "steamapps", "compatdata", "238960", "pfx", "drive_c",
            "users", "steamuser", "Documents", "My Games", "Path of Exile",
        ],
    );
    push_log(
        &mut out,
        home,
        vec![
            ".var", "app", "com.valvesoftware.Steam", ".local", "share", "Steam", "steamapps",
            "common", "Path of Exile",
        ],
    );
    push_log(
        &mut out,
        home,
        vec![
            ".var", "app", "com.valvesoftware.Steam", ".local", "share", "Steam", "steamapps",
            "compatdata", "238960", "pfx", "drive_c", "users", "steamuser", "Documents", "My Games",
            "Path of Exile",
        ],
    );
    out
}

// ---------------------------------------------------------------- the order of locations

/// Whether each location comes before those behind it, so that no path is listed twice.
pub open spec fn ascending_paths(list: Seq<LocationContent>) -> bool {
    forall|i: int, j: int|
        0 <= i < j < list.len() ==> path_before(
            (#[trigger] list[i]).path(),
            (#[trigger] list[j]).path(),
        )
}

/// Whether a path is listed.
pub open spec fn lists_path(list: Seq<LocationContent>, path: Seq<(u8, Seq<char>)>) -> bool {
    exists|i: int| 0 <= i < list.len() && (#[trigger] list[i]).path() == path
}

/// Whether location `k` is the first of the list with its path.
pub open spec fn is_first(list: Seq<LocationContent>, k: int) -> bool {
    0 <= k < list.len() && forall|j: int| 0 <= j < k ==> (#[trigger] list[j]).path() != list[k].path()
}

/// Whether a location is the first of the list with its path.
pub open spec fn holds_first(list: Seq<LocationContent>, location: LocationContent) -> bool {
    exists|k: int| #[trigger] is_first(list, k) && list[k] == location
}

/// Whether `list` holds the locations of `all` in the order of their paths, and of those with one
/// path the first alone.
pub open spec fn lists_in_path_order(list: Seq<LocationContent>, all: Seq<LocationContent>) -> bool {
    &&& ascending_paths(list)
    &&& forall|i: int| 0 <= i < list.len() ==> holds_first(all, #[trigger] list[i])
    &&& forall|k: int| 0 <= k < all.len() ==> lists_path(list, (#[trigger] all[k]).path())
}

proof fn lemma_first_stays(all: Seq<LocationContent>, more: LocationContent, x: LocationContent)
    requires
        holds_first(all, x),
    ensures
        holds_first(all.push(more), x),
{
    let k = choose|k: int| #[trigger] is_first(all, k) && all[k] == x;
    let grown = all.push(more);
    assert forall|j: int| 0 <= j < k implies (#[trigger] grown[j]).path() != grown[k].path() by {
        assert(grown[j] == all[j]);
    }
    assert(is_first(grown, k) && grown[k] == x);
}

proof fn lemma_known_path(
    list: Seq<LocationContent>,
    all: Seq<LocationContent>,
    x: LocationContent,
)
    requires
        lists_in_path_order(list, all),
        lists_path(list, x.path()),
    ensures
        lists_in_path_order(list, all.push(x)),
{
    let grown = all.push(x);
    assert forall|i: int| 0 <= i < list.len() implies holds_first(grown, #[trigger] list[i]) by {
        lemma_first_stays(all, x, list[i]);
    }
    assert forall|k: int| 0 <= k < grown.len() implies lists_path(
        list,
        (#[trigger] grown[k]).path(),
    ) by {
        if k < all.len() {
            assert(grown[k] == all[k]);
        }
    }
}

proof fn lemma_new_path(
    list: Seq<LocationContent>,
    all: Seq<LocationContent>,
    x: LocationContent,
    at: int,
)
    requires
        lists_in_path_order(list, all),
        0 <= at <= list.len(),
        forall|i: int| 0 <= i < at ==> path_before((#[trigger] list[i]).path(), x.path()),
        at < list.len() ==> path_before(x.path(), list[at].path()),
    ensures
        lists_in_path_order(list.insert(at, x), all.push(x)),
{
    let grown = all.push(x);
    let now = list.insert(at, x);
    assert forall|i: int| at <= i < list.len() implies path_before(
        x.path(),
        (#[trigger] list[i]).path(),
    ) by {
        if i > at {
            path_order_is_transitive(x.path(), list[at].path(), list[i].path());
        }
    }
    assert forall|i: int, j: int| 0 <= i < j < now.len() implies path_before(
        (#[trigger] now[i]).path(),
        (#[trigger] now[j]).path(),
    ) by {
        let a = if i < at {
            i
        } else {
            i - 1
        };
        let b = if j < at {
            j
        } else {
            j - 1
        };
        if i != at {
            assert(now[i] == list[a]);
        }
        if j != at {
            assert(now[j] == list[b]);
        }
    }
    assert(!lists_path(list, x.path())) by {
        path_order_is_strict(x.path());
    }
    assert forall|j: int| 0 <= j < all.len() implies (#[trigger] grown[j]).path() != x.path() by {
        assert(grown[j] == all[j]);
        assert(lists_path(list, all[j].path()));
    }
    assert(is_first(grown, all.len() as int) && grown[all.len() as int] == x);
    assert forall|i: int| 0 <= i < now.len() implies holds_first(grown, #[trigger] now[i]) by {
        if i < at {
            assert(now[i] == list[i]);
            lemma_first_stays(all, x, list[i]);
        } else if i > at {
            assert(now[i] == list[i - 1]);
            lemma_first_stays(all, x, list[i - 1]);
        }
    }
    assert forall|k: int| 0 <= k < grown.len() implies lists_path(
        now,
        (#[trigger] grown[k]).path(),
    ) by {
        if k < all.len() {
            assert(grown[k] == all[k]);
            let i = choose|i: int| 0 <= i < list.len() && (#[trigger] list[i]).path()
                == all[k].path();
            if i < at {
                assert(now[i].path() == all[k].path());
            } else {
                assert(now[i + 1].path() == all[k].path());
            }
        } else {
            assert(now[at].path() == x.path());
        }
    }
}

/// The place of a path in an ascending list, where it is not listed yet.
fn place_of(list: &Vec<LogLocation>, parts: &Vec<PathPart>) -> (r: Option<usize>)
    requires
        ascending_paths(location_contents(list@)),
    ensures
        ({
            let all = location_contents(list@);
            let path = part_texts(parts@);
            match r {
                Some(at) => at <= all.len() && (forall|i: int|
                    0 <= i < at ==> path_before((#[trigger] all[i]).path(), path)) && (at < all.len()
                    ==> path_before(path, all[at as int].path())),
                None => lists_path(all, path),
            }
        }),
{
    let ghost all = location_contents(list@);
    let ghost path = part_texts(parts@);
    let mut i: usize = 0;
    while i < list.len()
        invariant
            i <= list@.len(),
            all == location_contents(list@),
            path == part_texts(parts@),
            forall|k: int| 0 <= k < i ==> path_before((#[trigger] all[k]).path(), path),
        decreases list@.len() - i,
    {
        assert(all[i as int] == list@[i as int]@);
        match path_order(&list[i].parts(), parts) {
            PathOrder::Before => {},
            PathOrder::Same => {
                return None;
            },
            PathOrder::After => {
                proof {
                    path_order_is_total(all[i as int].path(), path);
                }
                return Some(i);
            },
        }
        i = i + 1;
    }
    Some(i)
}

/// The locations in the order of their paths; of those with one path the first stays.
pub fn order_locations(locations: &Vec<LogLocation>) -> (r: Vec<LogLocation>)
    ensures
        lists_in_path_order(location_contents(r@), location_contents(locations@)),
{
    let ghost all = location_contents(locations@);
    let mut out: Vec<LogLocation> = Vec::new();
    let mut i: usize = 0;
    assert(all.take(0).len() == 0);
    while i < locations.len()
        invariant
            i <= locations@.len(),
            all == location_contents(locations@),
            lists_in_path_order(location_contents(out@), all.take(i as int)),
        decreases locations@.len() - i,
    {
        let ghost before = location_contents(out@);
        let ghost x = locations@[i as int]@;
        assert(all.take(i + 1) =~= all.take(i as int).push(x));
        match place_of(&out, &locations[i].parts()) {
            Some(at) => {
                out.insert(at, locations[i].clone());
                proof {
                    assert(location_contents(out@) =~= before.insert(at as int, x));
                    lemma_new_path(before, all.take(i as int), x, at as int);
                }
            },
            None => {
                proof {
                    lemma_known_path(before, all.take(i as int), x);
                }
            },
        }
        i = i + 1;
    }
    assert(all.take(i as int) =~= all);
    out
}

proof fn lemma_same_until(
    a: Seq<LocationContent>,
    b: Seq<LocationContent>,
    all: Seq<LocationContent>,
    n: int,
)
    requires
        lists_in_path_order(a, all),
        lists_in_path_order(b, all),
        0 <= n <= a.len(),
    ensures
        n <= b.len(),
        a.take(n) == b.take(n),
    decreases n,
{
    if n > 0 {
        let i = n - 1;
        lemma_same_until(a, b, all, i);
        lemma_place(a, b, all, i);
        assert(b.len() >= n) by {
            let j = choose|j: int| 0 <= j < b.len() && #[trigger] b[j] == a[i];
            if b.len() == i {
                assert(a.take(i)[j] == b.take(i)[j]);
                path_order_is_strict(a[i].path());
            }
        }
        let j = choose|j: int| 0 <= j < b.len() && #[trigger] b[j] == a[i];
        if j < i {
            assert(a.take(i)[j] == b.take(i)[j]);
            path_order_is_strict(a[i].path());
        } else if j > i {
            lemma_place(b, a, all, i);
            let k = choose|k: int| 0 <= k < a.len() && #[trigger] a[k] == b[i];
            assert(path_before(b[i].path(), b[j].path()));
            path_order_is_strict(a[i].path());
            if k < i {
                assert(a.take(i)[k] == b.take(i)[k]);
                path_order_is_strict(b[i].path());
            } else if k > i {
                path_order_is_transitive(a[i].path(), a[k].path(), a[i].path());
            }
        }
        assert(a.take(n) =~= a.take(i).push(a[i]));
        assert(b.take(n) =~= b.take(i).push(b[i]));
    }
}

proof fn lemma_place(
    a: Seq<LocationContent>,
    b: Seq<LocationContent>,
    all: Seq<LocationContent>,
    i: int,
)
    requires
        lists_in_path_order(a, all),
        lists_in_path_order(b, all),
        0 <= i < a.len(),
    ensures
        exists|j: int| 0 <= j < b.len() && #[trigger] b[j] == a[i],
{
    assert(holds_first(all, a[i]));
    let k = choose|k: int| #[trigger] is_first(all, k) && all[k] == a[i];
    assert(lists_path(b, all[k].path()));
    let j = choose|j: int| 0 <= j < b.len() && (#[trigger] b[j]).path() == all[k].path();
    assert(holds_first(all, b[j]));
    let m = choose|m: int| #[trigger] is_first(all, m) && all[m] == b[j];
    assert(m == k);
}

/// The order leaves one list alone.
pub proof fn the_order_of_paths_fixes_the_list(
    all: Seq<LocationContent>,
    a: Seq<LocationContent>,
    b: Seq<LocationContent>,
)
    requires
        lists_in_path_order(a, all),
        lists_in_path_order(b, all),
    ensures
        a == b,
{
    lemma_same_until(a, b, all, a.len() as int);
    lemma_same_until(b, a, all, b.len() as int);
    assert(a.take(a.len() as int) =~= a);
    assert(b.take(a.len() as int) =~= b);
}

/// No more locations are listed than there are.
pub proof fn the_list_is_not_longer(list: Seq<LocationContent>, all: Seq<LocationContent>)
    requires
        lists_in_path_order(list, all),
    ensures
        list.len() <= all.len(),
{
    assert forall|i: int, j: int| 0 <= i < list.len() && 0 <= j < list.len() && i != j implies
        list[i] != list[j] by {
        path_order_is_strict(list[i].path());
        if i < j {
            assert(path_before(list[i].path(), list[j].path()));
        } else {
            assert(path_before(list[j].path(), list[i].path()));
        }
    }
    assert forall|x: LocationContent| list.to_set().contains(x) implies all.to_set().contains(x) by {
        let i = choose|i: int| 0 <= i < list.len() && list[i] == x;
        assert(holds_first(all, list[i]));
    }
    list.unique_seq_to_set();
    all.lemma_cardinality_of_set();
    vstd::set_lib::lemma_len_subset(list.to_set(), all.to_set());
}

/// Where the client log may stand, in the order of the paths and each path once.
pub fn candidate_log_paths(environment: &LogEnvironment) -> (r: Vec<LogLocation>)
    ensures
        lists_in_path_order(location_contents(r@), candidate_logs(*environment)),
{
    order_locations(&list_candidates(environment))
}

/// The file of a location is a client log.
pub open spec fn is_client_log(location: LocationContent) -> bool {
    location.path().len() > 0 && location.path().last() == (NAME_RANK, "Client.txt"@)
}

proof fn lemma_candidates_are_client_logs(environment: LogEnvironment, i: int)
    requires
        0 <= i < candidate_logs(environment).len(),
    ensures
        is_client_log(candidate_logs(environment)[i]),
{
    let location = candidate_logs(environment)[i];
    assert(exists|d: Seq<&str>| location.names == name_views(d) + seq!["logs"@, "Client.txt"@]);
    let d = choose|d: Seq<&str>| location.names == name_views(d) + seq!["logs"@, "Client.txt"@];
    assert(location.names.last() == "Client.txt"@);
    assert(location.path().last() == name_parts(location.names).last());
}

/// The candidates are in the order of their paths and no path is listed twice; each is a client log,
/// and there are eleven at most. The common client logs are among them. Where the environment names
/// no directory there is none.
pub proof fn candidates_are_distinct_client_logs_in_order(
    environment: LogEnvironment,
    list: Seq<LocationContent>,
)
    requires
        lists_in_path_order(list, candidate_logs(environment)),
    ensures
        ascending_paths(list),
        forall|i: int| 0 <= i < list.len() ==> is_client_log(#[trigger] list[i]),
        forall|k: int|
            0 <= k < common_logs(environment).len() ==> lists_path(
                list,
                (#[trigger] common_logs(environment)[k]).path(),
            ),
        list.len() <= 11,
        environment.program_files_x86 is None && environment.program_files is None
            && environment.steam_compat_data is None && environment.user_profile is None
            && environment.home is None ==> list.len() == 0,
{
    let all = candidate_logs(environment);
    assert forall|i: int| 0 <= i < list.len() implies is_client_log(#[trigger] list[i]) by {
        let k = choose|k: int| #[trigger] is_first(all, k) && all[k] == list[i];
        lemma_candidates_are_client_logs(environment, k);
    }
    assert forall|k: int| 0 <= k < common_logs(environment).len() implies lists_path(
        list,
        (#[trigger] common_logs(environment)[k]).path(),
    ) by {
        common_logs_are_candidates(environment, k);
    }
    the_list_is_not_longer(list, all);
}

/// Whether a candidate is the first that is a file; none is where no candidate is a file.
pub open spec fn is_first_file(is_file: Seq<bool>, found: Option<usize>) -> bool {
    match found {
        Some(i) => i < is_file.len() && is_file[i as int] && forall|j: int|
            0 <= j < i ==> !is_file[j],
        None => forall|j: int| 0 <= j < is_file.len() ==> !is_file[j],
    }
}

/// The first of the candidates that is a file.
pub fn discover_client_log(is_file: &Vec<bool>) -> (r: Option<usize>)
    ensures
        is_first_file(is_file@, r),
{
    let mut i: usize = 0;
    while i < is_file.len()
        invariant
            i <= is_file@.len(),
            forall|j: int| 0 <= j < i ==> !is_file@[j],
        decreases is_file@.len() - i,
    {
        if is_file[i] {
            return Some(i);
        }
        i = i + 1;
    }
    None
}

/// The client logs that are looked for first: in the program directory and below the Proton prefix.
pub open spec fn common_logs(environment: LogEnvironment) -> Seq<LocationContent> {
    log_below(environment.program_files_x86, seq!["Grinding Gear Games", "Path of Exile"])
        + log_below(
        environment.steam_compat_data,
        seq!["pfx", "drive_c", "Program Files (x86)", "Grinding Gear Games", "Path of Exile"],
    )
}

/// The client logs that are looked for first.
pub fn common_log_paths(environment: &LogEnvironment) -> (r: Vec<LogLocation>)
    ensures
        location_contents(r@) == common_logs(*environment),
{
    let mut out: Vec<LogLocation> = Vec::new();
    assert(location_contents(out@) =~= Seq::empty());
    push_log(
        &mut out,
        &environment.program_files_x86,
        vec!["Grinding Gear Games", "Path of Exile"],
    );
    push_log(
        &mut out,
        &environment.steam_compat_data,
        vec!["pfx", "drive_c", "Program Files (x86)", "Grinding Gear Games", "Path of Exile"],
    );
    out
}

/// Every common client log is one of the candidates.
pub proof fn common_logs_are_candidates(environment: LogEnvironment, i: int)
    requires
        0 <= i < common_logs(environment).len(),
    ensures
        candidate_logs(environment).contains(common_logs(environment)[i]),
{
    let all = candidate_logs(environment);
    let common = common_logs(environment);
    let x86 = environment.program_files_x86;
    if x86 is Some && i == 0 {
        assert(all[0] == common[0]);
    } else {
        let k = (if x86 is Some {
            2int
        } else {
            0
        }) + (if environment.program_files is Some {
            1int
        } else {
            0
        });
        assert(all[k] == common[i]);
    }
}

} // verus!
