//! A chess move chooser.
//!
//! Given a position, the library picks a move for the side to play by a
//! depth-limited negamax search over the positions of the `chess` rules crate.
//! Scores are integers, relative to the side to move.
//!
//! - [`search::alphabeta`] is the engine: alpha-beta pruning, a transposition
//!   table and a capture-only extension beyond the nominal depth.
//! - [`search::simpleminmax`] is the same search without pruning and without
//!   a table; [`search::greedy`] looks one ply ahead.
//! - [`table`] is the transposition table, a lossy cache of fixed size.
//! - [`evaluator`] holds the capability that scores a leaf, with an evaluator
//!   that counts material and what a network evaluator needs as its input.
//! - [`engine`] goes from the text of a position to the text of a move, and
//!   [`ui`] renders a position.
//! - [`rules`] is the interface to the rules crate. Its contracts, and those
//!   of the few other functions that call outside code, are assumed; every
//!   other contract in the library is proved.
//!
//! What a search returns is defined by specification functions that follow the
//! tree node by node; the modules whose names end in `_laws` prove what holds
//! of these definitions, and [`search::alphabeta_bounds`] how the pruned
//! search stands to the full-width value.
//!
//! The rules crate generates moves for sane positions in which no side has
//! more than sixteen pieces, and reads texts whose piece placement is sound.
//! A move may lead to a position that is not sane, so every search tests a
//! position with [`rules::is_searchable`] before it generates moves for it,
//! and has the evaluator score a position that fails the test. [`engine`]
//! refuses a text whose placement is not sound, by
//! [`rules::has_sound_placement`], or whose position cannot be searched.

pub mod engine;
pub mod evaluator;
pub mod rules;
pub mod search;
pub mod table;
pub mod ui;
