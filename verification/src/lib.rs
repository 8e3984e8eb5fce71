//! The transactional core of an EVM executor.
//!
//! * [`journal`] holds the state in memory together with a journal of every
//!   change, so that a call frame or a whole transaction can be undone;
//!   [`entry`] has the journal entries and how each is undone,
//!   [`journal_model`] says what each operation does, and [`journal_laws`]
//!   proves what holds across operations.
//! * [`contract`] has the call and create instructions, which turn operands
//!   on the stack of an [`interpreter`] into requests for child frames and
//!   meter their [`gas`].
//! * [`handler`] takes one transaction through validation, pre-execution,
//!   the frame loop and post-execution, and cleans up after an error.
//!
//! Accounts and code are in [`state`], the values that everything works on
//! in [`primitives`], the maps that hold them in [`vec_map`].
pub mod context;
pub mod contract;
pub mod database;
pub mod entry;
pub mod execution;
pub mod frame;
pub mod gas;
pub mod handler;
pub mod interpreter;
pub mod journal;
pub mod journal_laws;
pub mod journal_model;
pub mod post_execution;
pub mod pre_execution;
pub mod primitives;
pub mod result;
pub mod state;
pub mod validation;
pub mod vec_map;
