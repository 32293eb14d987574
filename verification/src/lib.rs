//! Lines-changed totals per file extension, gathered from commit histories and
//! drawn as a small vector badge.
//!
//! The crate is the verified core of the tracker: the rules that turn file
//! changes into a tally, the engine that walks a paginated commit history one
//! request at a time, and the layout of the badge. Network access and the
//! invocation wrapper live outside of it and talk to the engine through plain
//! values.
//!
//! - [`config`] resolves which repositories to walk.
//! - [`extension`] and [`tally`] hold the counting rules; [`totals`] proves
//!   what the totals add up to.
//! - [`engine`] is the walk as a state machine: it says which request is due
//!   and takes the reply.
//! - [`history`] says what a walk through a recorded history amounts to,
//!   [`aggregate`] drives the engine through one, and [`accounting`] and
//!   [`pagination`] prove what such a walk counts and fetches.
//! - [`render`] lays the tally out and has it written as markup; [`report`]
//!   wraps the markup as the answer to an invocation.
//!
//! Two things are taken on trust, each behind one private function: that
//! `serde_json` reads the same mapping from the same text, and that `svg`
//! writes the same markup for the same scene.

pub mod accounting;
pub mod aggregate;
pub mod config;
pub mod decimal;
pub mod engine;
pub mod extension;
pub mod history;
pub mod model;
pub mod pagination;
pub mod render;
pub mod report;
pub mod tally;
pub mod totals;
