//! Test plans for moving bytes between the instances of a test run.
//!
//! A plan pairs the instances of a run as listeners and dialers. Listeners
//! announce where they are reached; dialers dial them and, in some plans,
//! fetch the content that they offer. [`session::Session`] is the run of one
//! instance: it says what to do next and is told what came of it.
//!
//! [`protocol`] says which step follows which, [`laws`] what holds of every
//! run, [`runs`] what a whole run looks like, and [`together`] and [`shaping`]
//! what holds of all the instances of a test run.

pub mod address;
pub mod announcement;
pub mod content;
pub mod decimal;
pub mod laws;
pub mod metrics;
pub mod network;
pub mod plan;
pub mod protocol;
pub mod runs;
pub mod session;
pub mod shaping;
pub mod tls;
pub mod together;
