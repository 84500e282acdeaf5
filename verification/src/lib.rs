//! The logic of a companion for Path of Exile 1 that reads and shows, and never acts on the game.
//!
//! - The client log: [`events`] reads its lines and trade requests, [`logs`] follows it,
//!   [`platform`] finds it and the game, [`storage`] says what the history keeps, [`clock`] tells
//!   time.
//! - Characters: [`character`] holds what a player captured, [`bonuses`] what items add,
//!   [`item_text`] and [`gem_text`] read what the game copies, [`sheet`] and [`identity`] what a
//!   screenshot shows, [`assessment`] says what is lacking, [`passive_tree`] reads links to passive
//!   trees.
//! - Builds: [`pob`] imports what Path of Building exports, [`pob_document`] reads its documents.
//! - The companion: [`session`] holds its state and what the assistant is asked, [`display`] says
//!   what the window shows, [`assistant`] keeps the assistant on this machine.
//! - Outside crates: [`encoding`], [`links`], [`patterns`] and [`xml`] say what is taken from them.
//! - Texts: [`chars`], [`text`], [`number`], [`order`] and [`paths`].
//! - [`laws`] says what all of this is for, as theorems of inputs and results.

pub mod assessment;
pub mod assistant;
pub mod bonuses;
pub mod character;
pub mod chars;
pub mod clock;
pub mod display;
pub mod encoding;
pub mod events;
pub mod gem_text;
pub mod identity;
pub mod item_lines;
pub mod item_text;
pub mod laws;
pub mod links;
pub mod logs;
pub mod number;
pub mod order;
pub mod passive_tree;
pub mod paths;
pub mod patterns;
pub mod platform;
pub mod pob;
pub mod pob_document;
pub mod session;
pub mod sheet;
pub mod storage;
pub mod text;
pub mod xml;
