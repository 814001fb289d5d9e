//! Rendering of hierarchical, structured log events into one line, and the
//! choice of where that line goes (standard output or the systemd journal).
//!
//! The library holds the logic: field capture, the name chain of the enclosing
//! scopes, the assembly of the line and the severity mappings. Everything that
//! talks to a tracing subscriber, to standard output or to the journal lives
//! outside it and hands plain values in.
pub mod fields;
pub mod laws;
pub mod layer;
pub mod level;
pub mod order;
pub mod paint;
pub mod render;
pub mod sink;
pub mod visitor;

pub use fields::SystemdFieldStorage;
pub use layer::SystemdLayer;
pub use level::{journal_level_from_tracing_level, prefix_from_tracing_level, JournalLevel, Level};
pub use render::{EventDescriptor, ScopeDescriptor};
pub use sink::Output;
pub use visitor::SystemdVisitor;
