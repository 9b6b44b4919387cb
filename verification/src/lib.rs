//! Traces who owns, borrows and gives up each variable of a function body.
//!
//! A [`visitor::ExprVisitor`] visits the tree of a body, as [`hir`] holds it. On its way it
//! reports moves, copies and borrows as [`event::Event`]s, keeps the last line on which each
//! reference is used, and lists what takes part; [`report`] sums that up. What a visit does is
//! said in [`semantics`]. What holds of every trace stands in [`laws`] and [`readable`], and what
//! each operation is for in [`laws_text`], [`laws_value`], [`laws_visit`] and [`laws_report`].

pub mod event;
pub mod hir;
pub mod laws;
pub mod laws_report;
pub mod laws_text;
pub mod laws_value;
pub mod laws_visit;
pub mod points;
pub mod readable;
pub mod report;
pub mod semantics;
pub mod table;
pub mod text;
pub mod visitor;
