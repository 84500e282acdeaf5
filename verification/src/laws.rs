//! What the operations of the library are for, said of their inputs and results.

pub mod assessments;
pub mod builds;
pub mod events;
pub mod gems;
pub mod identities;
pub mod imports;
pub mod items;
pub mod messages;
pub mod numbers;
pub mod places;
pub mod sessions;
pub mod sheets;
pub mod texts;
pub mod trees;
