//! Per-test process isolation by simulated forking.
//!
//! A test that is to run in a process of its own makes the test binary run
//! itself again, with that one test selected. The new process starts from
//! the same entry point, reaches the same call site, and has to see there
//! that it is the child: then it runs the body of the test and leaves with
//! an exit code that tells the parent how the body ended.
//!
//! This library holds every decision of that protocol, as functions on
//! plain values: the identity of a call site, the trail of identities that
//! a lineage of processes has entered, the role of a process at a fork
//! point, the description of the child to spawn, the exit code of a body,
//! the verdict on a child that has ended, the release of a child and the
//! relay of its captured output, and the exchange of a buffer between
//! parent and child. Spawning, waiting, reading and writing are left to the
//! caller.

pub mod declaration;
pub mod error;
pub mod exchange;
pub mod fork;
pub mod fork_test;
pub mod identity;
pub mod lines;
pub mod relay;
pub mod supervise;
pub mod text;
pub mod trail;

pub use crate::error::Error;
pub use crate::fork::plan_fork;
pub use crate::fork::ForkPlan;
pub use crate::fork::SpawnDescriptor;
pub use crate::fork_test::fix_module_path;
pub use crate::identity::RustyForkId;
pub use crate::supervise::supervise_child;
pub use crate::supervise::ChildWrapper;
pub use crate::trail::OccurrenceTrail;
