//! How a server process starts, stops and restarts.
//!
//! Two decisions live here, and they are ONE control flow. [`rotate`] decides
//! when the security material a process read at boot has changed on disk, and
//! therefore when the process should end; [`drain`] bounds the drain that
//! follows, and decides when the clock of that bound starts.
//!
//! Neither touches the machine. What a file holds, what time it is, what a task
//! returned: all of it is handed in, and what to publish, what to log and what
//! to do next is handed back. What lies in between is proved, from the contracts
//! that [`boundary`] takes on trust.

pub mod boundary;
pub mod drain;
pub mod duration;
pub mod path;
pub mod path_laws;
pub mod rotate;
pub mod text;
pub mod text_laws;

pub use drain::{drain_budget, Drain, DRAIN_BUDGET};
pub use duration::Duration;
pub use path::FilePath;
