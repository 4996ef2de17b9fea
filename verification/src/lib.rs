//! A fixed-size worker pool, verified.
//!
//! The pool accepts units of deferred work ("jobs") from submitters and hands
//! each one to exactly one of a fixed set of workers. This crate verifies the
//! pool's control logic: the shared first-in-first-out job queue, the worker
//! lifecycle (idle, running, terminated), submission after teardown, and the
//! drain-before-close teardown discipline. Jobs are identified by tags chosen
//! by the submitter; running a job's code on an operating-system thread is the
//! business of an embedding program, which drives this logic.

pub mod pool;
pub mod queue;
pub mod worker;
