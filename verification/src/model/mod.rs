//! The component model - pure data shared across stages.
//!
//! - [`pack`]: `mmc-pack.json` (which patches to load).
//! - [`patch`]: one `patches/<uid>.json` (the component schema).
//! - [`profile`]: the merged result the downstream stages consume.
//! - [`artifact`]: what resolution produces.

pub mod artifact;
pub mod pack;
pub mod patch;
pub mod profile;
