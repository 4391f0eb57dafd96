//! Extraction of one program from an e-graph, posed as a constrained
//! optimisation problem for an answer-set solver.
//!
//! The crate holds the parts of that task that are pure decisions: the
//! problem model, the encoding of a problem as facts plus a fixed rule
//! program, the decoding and validation of candidate models, and the state
//! machine of the interruptible solve loop. The solver itself is driven by
//! the caller, who performs each [`Action`] and reports back an [`Event`].

pub mod atom;
pub mod decode;
pub mod egraph;
pub mod encode;
pub mod error;
pub mod program;
pub mod run;
pub mod selection;
pub mod session;

pub use atom::{Arg, ArgView, Atom, AtomView};
pub use egraph::{Class, GraphView, Id, Node, NodeView, SimpleEGraph};
pub use error::ExtractError;
pub use selection::{empty_selection, ExtractionResult};
pub use session::{Action, AspExtractor, Event, EventView, Phase, Session, SessionView};
