//! Navigation driver core: URL classification and resolution, a versioned
//! cache of extraction-rule generations, and the decision logic of the
//! acquire / process / render / navigate loop.

pub mod utilities;
pub mod cache;
pub mod navigation;
