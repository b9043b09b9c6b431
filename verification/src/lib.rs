//! An in-memory simulation kernel in the entity/component style, together
//! with the three domain pipelines built on it: document analysis,
//! inspection-finding simulation, and job/inspector assignment.
//!
//! A caller builds a fresh world, seeds it with entities, runs an ordered
//! schedule of systems exactly once, and reads the resulting component
//! values back. The world lives only for one run.
//!
//! Around the kernel stand the portal's plain data records and the small
//! calculations its request handlers lean on: civil-calendar arithmetic
//! for project timelines and inspection slots, survey-hub applicability,
//! and the full-text search term of the notes endpoint. Storage, HTTP and
//! the clock stay outside; everything here works on plain values.

pub mod assignment;
pub mod dates;
pub mod documents;
pub mod inspection;
pub mod kernel;
pub mod logistics;
pub mod models;
pub mod notes;
pub mod scheduler;
pub mod surveys;
pub mod timelines;
