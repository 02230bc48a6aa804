//! Triage of recorded game sessions ("demos"): decides from the event
//! annotations kept beside each demo which demos are worth keeping.
//!
//! Two annotation sources are understood. `ds` reads one JSON-shaped sidecar
//! per demo, `prec` reads one shared plain-text log per directory. Both turn
//! their source into event labels and hand them to the same inclusion policy
//! in `policy`.

pub mod demo;
pub mod ds;
pub mod output;
pub mod policy;
pub mod prec;
pub mod table;
pub mod text;
pub mod util;

pub use demo::IncludedDemo;
