//! Decoding and aggregation of QuakeML seismic event catalogs.
//!
//! The crate turns the text of a QuakeML event-catalog document into a typed
//! `QuakeML` value, resolves per event which of several candidate origins and
//! magnitudes is the preferred one, and reduces a whole catalog to summary
//! statistics (event count, minimum and maximum preferred magnitude).

pub mod decimal;
pub mod decode;
pub mod errors;
pub mod model;
pub mod resolve;
pub mod summary;
pub mod time;
pub mod xml;

pub use errors::{DecodeError, ResolutionError};
pub use model::QuakeML;
pub use summary::{summarize, CatalogSummary};
