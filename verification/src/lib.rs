//! The rules core of an SRG Supershow match engine.
//!
//! - [`ir`]: the effect language that cards are written in.
//! - [`skills`], [`ratio`], [`finish`]: the six skills, exact fractions, and the exact
//!   odds that a finish holds; [`finish_rules`] says what they come to, [`face_laws`] and
//!   [`finish_laws`] how they move.
//! - [`gamelog`]: the log of a match, its canonical form, its file and its comparison;
//!   [`gamelog_rules`] says what lines and differences hold, [`gamelog_laws`] that the
//!   file tells logs apart. [`json`], [`json_rules`], [`json_laws`], [`lines`], [`text`]
//!   and [`textmap`] are what it is made of.
//! - [`engine`]: the order of a turn roll, and how long a gimmick stays blank.
//! - [`session`]: the steps of a resumable match.
//! - [`error`]: what can go wrong.

use vstd::prelude::*;

pub mod engine;
pub mod error;
pub mod face_laws;
pub mod finish;
pub mod finish_laws;
pub mod finish_rules;
pub mod gamelog;
pub mod gamelog_laws;
pub mod gamelog_rules;
pub mod ir;
pub mod json;
pub mod json_laws;
pub mod json_rules;
pub mod lines;
pub mod ratio;
pub mod session;
pub mod skills;
pub mod text;
pub mod textmap;

pub use engine::{GameState, PlayerState};
pub use error::{Result, SrgError};
pub use skills::Skills;

verus! {

} // verus!
