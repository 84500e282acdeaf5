# Exile Companion

A companion for Path of Exile 1 that reads and shows, and never acts on the game. It follows the
client log, keeps a local history, reads what a player captures of a character, imports builds from
Path of Building, and asks a local assistant about the session.

`src/` is the library: every rule of the companion, stated in contracts and proved by Verus. What
outside crates do is stated in `encoding`, `links`, `patterns`, `xml` and `clock`, next to the calls.
`app/` is the desktop program around it: the window, files, processes, the history database and the
assistant's server. `tests/` runs the library on concrete values.

The library never sends input to the game, follows no link, and accepts no assistant but one on this
machine: `pob::links_are_refused` and `assistant::only_this_machine_is_accepted` say the last two as
theorems.
