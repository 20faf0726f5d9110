//! Capture-side logic of a remote desktop core: pointer clipping and compositing,
//! frame plane sizes, the retry and selection rules around the display
//! duplication API, and the settling of calls handed to the async runtime.

pub mod bridge;
pub mod capture;
pub mod cursor;
pub mod device;
pub mod mask;
