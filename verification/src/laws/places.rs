//! Where the client log is looked for, in which order, and which processes are the game.

use vstd::prelude::*;
use vstd::string::*;
use vstd::utf8::encode_utf8;
use crate::laws::texts::a_text_begins_with_its_front;
use crate::order::{order_is_strict, order_is_transitive, precedes};
use crate::paths::{
    path_before, path_order_of, PathOrder, CURRENT_RANK, DEVICE_RANK, DISK_RANK, NAME_RANK,
    PARENT_RANK, ROOT_RANK, SHARE_RANK, VERBATIM_DISK_RANK, VERBATIM_RANK, VERBATIM_SHARE_RANK,
};
use crate::platform::{
    candidate_logs, common_logs, game_runs, holds_first, is_first, is_first_file,
    lists_in_path_order, lists_path, log_below, names_the_game, DirectoryPath, LocationContent,
    LogEnvironment,
};
use crate::text::{begins_with, lowered, name_views};

verus! {

// ---------------------------------------------------------------- processes

/// The game goes by its name, with or without the ending of a program; by names that go on with an
/// underscore or with the name of Steam; and by any name that goes on so that it has thirteen bytes.
/// The case of the letters does not matter, and no other name is the game's.
pub proof fn the_game_goes_by_its_names(name: Seq<char>, rest: Seq<char>)
    ensures
        lowered(name) == "pathofexile"@ || lowered(name) == "pathofexile.exe"@ ==> names_the_game(
            name,
        ),
        lowered(name) == "pathofexile_"@ + rest || lowered(name) == "pathofexilesteam"@ + rest
            ==> names_the_game(name),
        lowered(name) == "pathofexile"@ + rest && encode_utf8(lowered(name)).len() >= 13
            ==> names_the_game(name),
        !begins_with(lowered(name), "pathofexile"@) ==> !names_the_game(name),
        encode_utf8(lowered(name)).len() < 13 && lowered(name) != "pathofexile"@ && lowered(name)
            != "pathofexile.exe"@ && !begins_with(lowered(name), "pathofexile_"@) && !begins_with(
            lowered(name),
            "pathofexilesteam"@,
        ) ==> !names_the_game(name),
{
    reveal_strlit("pathofexile");
    reveal_strlit("pathofexile.exe");
    reveal_strlit("pathofexile_");
    reveal_strlit("pathofexilesteam");
    reveal_strlit(".exe");
    reveal_strlit("_");
    reveal_strlit("steam");
    a_text_begins_with_its_front("pathofexile"@, rest);
    a_text_begins_with_its_front("pathofexile_"@, rest);
    a_text_begins_with_its_front("pathofexilesteam"@, rest);
    let s = lowered(name);
    lemma_shorter(s, "pathofexile"@, ".exe"@, "pathofexile.exe"@);
    lemma_shorter(s, "pathofexile"@, "_"@, "pathofexile_"@);
    lemma_shorter(s, "pathofexile"@, "steam"@, "pathofexilesteam"@);
    assert("pathofexile.exe"@.subrange(0, 15) =~= "pathofexile.exe"@);
    assert("pathofexile"@.subrange(0, 11) =~= "pathofexile"@);
}

proof fn lemma_shorter(s: Seq<char>, front: Seq<char>, back: Seq<char>, whole: Seq<char>)
    requires
        whole =~= front + back,
    ensures
        begins_with(s, whole) ==> begins_with(s, front),
{
    if begins_with(s, whole) {
        assert(s.subrange(0, front.len() as int) =~= s.subrange(0, whole.len() as int).subrange(
            0,
            front.len() as int,
        ));
        assert(whole.subrange(0, front.len() as int) =~= front);
    }
}

/// The game runs where one of the processes is it, and the first candidate that is a file is taken.
pub proof fn the_first_file_is_taken(names: Seq<String>, k: int, is_file: Seq<bool>, i: usize)
    ensures
        0 <= k < names.len() && names_the_game(names[k]@) ==> game_runs(names),
        (forall|j: int| 0 <= j < names.len() ==> !names_the_game(#[trigger] names[j]@))
            ==> !game_runs(names),
        is_first_file(is_file, Some(i)) <==> i < is_file.len() && is_file[i as int] && (forall|j: int|
            0 <= j < i ==> !is_file[j]),
        is_first_file(is_file, None) <==> (forall|j: int| 0 <= j < is_file.len() ==> !is_file[j]),
{
}

// ---------------------------------------------------------------- the order of paths

/// Prefixes, the root, steps and names are ranked in this order.
pub proof fn parts_are_ranked()
    ensures
        VERBATIM_RANK < VERBATIM_SHARE_RANK < VERBATIM_DISK_RANK < DEVICE_RANK < SHARE_RANK
            < DISK_RANK < ROOT_RANK < CURRENT_RANK < PARENT_RANK < NAME_RANK,
{
}

/// Paths are in the order of the first parts in which they differ, parts in the order of their ranks
/// and then of their names, and a path comes before those that it begins.
pub proof fn paths_are_ordered_by_their_first_difference(
    front: Seq<(u8, Seq<char>)>,
    a: (u8, Seq<char>),
    x: Seq<(u8, Seq<char>)>,
    b: (u8, Seq<char>),
    y: Seq<(u8, Seq<char>)>,
)
    ensures
        a.0 < b.0 || a.0 == b.0 && precedes(a.1, b.1) ==> path_before(
            front + seq![a] + x,
            front + seq![b] + y,
        ) && !path_before(front + seq![b] + y, front + seq![a] + x),
        path_before(front, front + seq![b] + y),
        !path_before(front + seq![b] + y, front),
        path_order_of(front, front) == PathOrder::Same,
        path_order_of(front, front + seq![b] + y) == PathOrder::Before,
    decreases front.len(),
{
    let left = front + seq![a] + x;
    let right = front + seq![b] + y;
    if front.len() > 0 {
        let f = front.skip(1);
        assert(left.skip(1) =~= f + seq![a] + x);
        assert(right.skip(1) =~= f + seq![b] + y);
        assert(left[0] == front[0] && right[0] == front[0]);
        paths_are_ordered_by_their_first_difference(f, a, x, b, y);
    } else {
        assert(left[0] == a && right[0] == b);
        if a.0 == b.0 && precedes(a.1, b.1) {
            order_is_strict(a.1);
            if precedes(b.1, a.1) {
                order_is_transitive(a.1, b.1, a.1);
            }
        }
    }
    assert(front.len() != right.len());
}

// ---------------------------------------------------------------- places of the log

/// The directories in which the log may stand: which directory of the environment each is below, and
/// the names that lead to the log.
pub open spec fn places(environment: LogEnvironment) -> Seq<(Option<DirectoryPath>, Seq<Seq<char>>)> {
    let x86 = environment.program_files_x86;
    let home = environment.home;
    seq![
        (x86, seq!["Grinding Gear Games"@, "Path of Exile"@, "logs"@, "Client.txt"@]),
        (
            x86,
            seq!["Steam"@, "steamapps"@, "common"@, "Path of Exile"@, "logs"@, "Client.txt"@],
        ),
        (
            environment.program_files,
            seq!["Grinding Gear Games"@, "Path of Exile"@, "logs"@, "Client.txt"@],
        ),
        (
            environment.steam_compat_data,
            seq![
                "pfx"@, "drive_c"@, "Program Files (x86)"@, "Grinding Gear Games"@,
                "Path of Exile"@, "logs"@, "Client.txt"@,
            ],
        ),
        (
            environment.user_profile,
            seq!["Documents"@, "My Games"@, "Path of Exile"@, "logs"@, "Client.txt"@],
        ),
        (
            home,
            seq![
                ".steam"@, "steam"@, "steamapps"@, "common"@, "Path of Exile"@, "logs"@,
                "Client.txt"@,
            ],
        ),
        (
            home,
            seq![
                ".steam"@, "steam"@, "steamapps"@, "compatdata"@, "238960"@, "pfx"@, "drive_c"@,
                "users"@, "steamuser"@, "Documents"@, "My Games"@, "Path of Exile"@, "logs"@,
                "Client.txt"@,
            ],
        ),
        (
            home,
            seq![
                ".local"@, "share"@, "Steam"@, "steamapps"@, "common"@, "Path of Exile"@, "logs"@,
                "Client.txt"@,
            ],
        ),
        (
            home,
            seq![
                ".local"@, "share"@, "Steam"@, "steamapps"@, "compatdata"@, "238960"@, "pfx"@,
                "drive_c"@, "users"@, "steamuser"@, "Documents"@, "My Games"@, "Path of Exile"@,
                "logs"@, "Client.txt"@,
            ],
        ),
        (
            home,
            seq![
                ".var"@, "app"@, "com.valvesoftware.Steam"@, ".local"@, "share"@, "Steam"@,
                "steamapps"@, "common"@, "Path of Exile"@, "logs"@, "Client.txt"@,
            ],
        ),
        (
            home,
            seq![
                ".var"@, "app"@, "com.valvesoftware.Steam"@, ".local"@, "share"@, "Steam"@,
                "steamapps"@, "compatdata"@, "238960"@, "pfx"@, "drive_c"@, "users"@, "steamuser"@,
                "Documents"@, "My Games"@, "Path of Exile"@, "logs"@, "Client.txt"@,
            ],
        ),
    ]
}

/// Whether a location is that of the log at a place.
pub open spec fn is_at(
    location: LocationContent,
    place: (Option<DirectoryPath>, Seq<Seq<char>>),
) -> bool {
    place.0 matches Some(root) && location.root == root@ && location.names == place.1
}

proof fn lemma_below(
    root: Option<DirectoryPath>,
    directory: Seq<&str>,
    names: Seq<Seq<char>>,
    x: LocationContent,
)
    requires
        name_views(directory) + seq!["logs"@, "Client.txt"@] =~= names,
    ensures
        log_below(root, directory).contains(x) <==> is_at(x, (root, names)),
        root matches Some(r) ==> log_below(root, directory).contains(
            LocationContent { root: r@, names },
        ),
{
    if let Some(r) = root {
        let list = log_below(root, directory);
        let one = LocationContent { root: r@, names };
        assert(list[0] == one);
        assert(list.contains(one));
    }
}

proof fn lemma_add(a: Seq<LocationContent>, b: Seq<LocationContent>, x: LocationContent)
    ensures
        (a + b).contains(x) <==> a.contains(x) || b.contains(x),
{
    let s = a + b;
    if a.contains(x) {
        let k = choose|k: int| 0 <= k < a.len() && a[k] == x;
        assert(s[k] == x);
    }
    if b.contains(x) {
        let k = choose|k: int| 0 <= k < b.len() && b[k] == x;
        assert(s[a.len() + k] == x);
    }
    if s.contains(x) {
        let k = choose|k: int| 0 <= k < s.len() && s[k] == x;
        if k < a.len() {
            assert(a[k] == x);
        } else {
            assert(b[k - a.len()] == x);
        }
    }
}

proof fn lemma_candidates(environment: LogEnvironment, x: LocationContent)
    ensures
        candidate_logs(environment).contains(x) <==> exists|t: int|
            0 <= t < 11 && is_at(x, #[trigger] places(environment)[t]),
{
    let x86 = environment.program_files_x86;
    let home = environment.home;
    let d0 = seq!["Grinding Gear Games", "Path of Exile"];
    let d1 = seq!["Steam", "steamapps", "common", "Path of Exile"];
    let d3 = seq!["pfx", "drive_c", "Program Files (x86)", "Grinding Gear Games", "Path of Exile"];
    let d4 = seq!["Documents", "My Games", "Path of Exile"];
    let d5 = seq![".steam", "steam", "steamapps", "common", "Path of Exile"];
    let d6 = seq![
        ".steam", "steam", "steamapps", "compatdata", "238960", "pfx", "drive_c", "users",
        "steamuser", "Documents", "My Games", "Path of Exile",
    ];
    let d7 = seq![".local", "share", "Steam", "steamapps", "common", "Path of Exile"];
    let d8 = seq![
        ".local", "share", "Steam", "steamapps", "compatdata", "238960", "pfx", "drive_c", "users",
        "steamuser", "Documents", "My Games", "Path of Exile",
    ];
    let d9 = seq![
        ".var", "app", "com.valvesoftware.Steam", ".local", "share", "Steam", "steamapps", "common",
        "Path of Exile",
    ];
    let d10 = seq![
        ".var", "app", "com.valvesoftware.Steam", ".local", "share", "Steam", "steamapps",
        "compatdata", "238960", "pfx", "drive_c", "users", "steamuser", "Documents", "My Games",
        "Path of Exile",
    ];
    let p = places(environment);
    lemma_below(x86, d0, p[0].1, x);
    lemma_below(x86, d1, p[1].1, x);
    lemma_below(environment.program_files, d0, p[2].1, x);
    lemma_below(environment.steam_compat_data, d3, p[3].1, x);
    lemma_below(environment.user_profile, d4, p[4].1, x);
    lemma_below(home, d5, p[5].1, x);
    lemma_below(home, d6, p[6].1, x);
    lemma_below(home, d7, p[7].1, x);
    lemma_below(home, d8, p[8].1, x);
    lemma_below(home, d9, p[9].1, x);
    lemma_below(home, d10, p[10].1, x);
    let s1 = log_below(x86, d0) + log_below(x86, d1);
    let s2 = s1 + log_below(environment.program_files, d0);
    let s3 = s2 + log_below(environment.steam_compat_data, d3);
    let s4 = s3 + log_below(environment.user_profile, d4);
    let s5 = s4 + log_below(home, d5);
    let s6 = s5 + log_below(home, d6);
    let s7 = s6 + log_below(home, d7);
    let s8 = s7 + log_below(home, d8);
    let s9 = s8 + log_below(home, d9);
    let s10 = s9 + log_below(home, d10);
    lemma_add(log_below(x86, d0), log_below(x86, d1), x);
    lemma_add(s1, log_below(environment.program_files, d0), x);
    lemma_add(s2, log_below(environment.steam_compat_data, d3), x);
    lemma_add(s3, log_below(environment.user_profile, d4), x);
    lemma_add(s4, log_below(home, d5), x);
    lemma_add(s5, log_below(home, d6), x);
    lemma_add(s6, log_below(home, d7), x);
    lemma_add(s7, log_below(home, d8), x);
    lemma_add(s8, log_below(home, d9), x);
    lemma_add(s9, log_below(home, d10), x);
    assert(s10 == candidate_logs(environment));
    assert(is_at(x, p[0]) || is_at(x, p[1]) || is_at(x, p[2]) || is_at(x, p[3]) || is_at(x, p[4])
        || is_at(x, p[5]) || is_at(x, p[6]) || is_at(x, p[7]) || is_at(x, p[8]) || is_at(x, p[9])
        || is_at(x, p[10]) <==> s10.contains(x));
}

/// The path of a location is that of its directory, with the names behind it.
pub proof fn names_lead_on_from_the_directory(location: LocationContent, i: int)
    ensures
        location.path().len() == location.root.parts.len() + location.names.len(),
        0 <= i < location.root.parts.len() ==> location.path()[i] == location.root.parts[i],
        0 <= i < location.names.len() ==> location.path()[location.root.parts.len() + i] == (
            NAME_RANK,
            location.names[i],
        ),
{
}

/// The log is looked for at each of the places whose directory the environment names, and nowhere
/// else.
pub proof fn the_log_is_looked_for_at_its_places(
    environment: LogEnvironment,
    list: Seq<LocationContent>,
    t: int,
    i: int,
)
    requires
        lists_in_path_order(list, candidate_logs(environment)),
    ensures
        0 <= t < places(environment).len() ==> (places(environment)[t].0 matches Some(root)
            ==> lists_path(
            list,
            (LocationContent { root: root@, names: places(environment)[t].1 }).path(),
        )),
        0 <= i < list.len() ==> exists|p: int|
            0 <= p < 11 && is_at(list[i], #[trigger] places(environment)[p]),
{
    let all = candidate_logs(environment);
    if 0 <= t < places(environment).len() {
        if let Some(root) = places(environment)[t].0 {
            let x = LocationContent { root: root@, names: places(environment)[t].1 };
            lemma_candidates(environment, x);
            assert(is_at(x, places(environment)[t]));
            let k = choose|k: int| 0 <= k < all.len() && all[k] == x;
            assert(lists_path(list, all[k].path()));
        }
    }
    if 0 <= i < list.len() {
        let x = list[i];
        assert(holds_first(all, list[i]));
        let k = choose|k: int| #[trigger] is_first(all, k) && all[k] == x;
        assert(all.contains(x));
        lemma_candidates(environment, x);
    }
}

/// The list is in the order of the paths and no path is listed twice; each location is the first of
/// all with its path, and the path of each is listed.
pub proof fn locations_are_listed_once_and_in_order(
    all: Seq<LocationContent>,
    list: Seq<LocationContent>,
    i: int,
    j: int,
)
    requires
        lists_in_path_order(list, all),
    ensures
        0 <= i < j < list.len() ==> path_before(list[i].path(), list[j].path()),
        0 <= i < list.len() ==> exists|k: int|
            0 <= k < all.len() && #[trigger] all[k] == list[i] && forall|m: int|
                0 <= m < k ==> (#[trigger] all[m]).path() != list[i].path(),
        0 <= j < all.len() ==> exists|k: int|
            0 <= k < list.len() && (#[trigger] list[k]).path() == all[j].path(),
{
    if 0 <= i < list.len() {
        assert(holds_first(all, list[i]));
        let k = choose|k: int| #[trigger] is_first(all, k) && all[k] == list[i];
        assert(all[k] == list[i]);
    }
    if 0 <= j < all.len() {
        assert(lists_path(list, all[j].path()));
    }
}

/// The common places are the one of the game's own installation and the one below Proton.
pub proof fn the_common_places(environment: LogEnvironment, x: LocationContent)
    ensures
        common_logs(environment).contains(x) <==> is_at(x, places(environment)[0]) || is_at(
            x,
            places(environment)[3],
        ),
{
    let d0 = seq!["Grinding Gear Games", "Path of Exile"];
    let d3 = seq!["pfx", "drive_c", "Program Files (x86)", "Grinding Gear Games", "Path of Exile"];
    let p = places(environment);
    lemma_below(environment.program_files_x86, d0, p[0].1, x);
    lemma_below(environment.steam_compat_data, d3, p[3].1, x);
    lemma_add(
        log_below(environment.program_files_x86, d0),
        log_below(environment.steam_compat_data, d3),
        x,
    );
}

} // verus!
