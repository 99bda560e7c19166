//! Window matching for a floating-overlay tool: which of the windows a
//! compositor reports should get an overlay, and which overlays should be
//! opened or closed when the set of windows changes.

pub mod text;
pub mod criteria;
pub mod windows;
pub mod bounds;
pub mod overlay;
