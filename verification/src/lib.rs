//! Window-manager core of the Aurora desktop: screen layout of the dock and
//! of the three client windows, a software rasteriser for the desktop chrome,
//! the scene that describes one frame, and the session state machine that the
//! host drives (focus, visibility, the Files listing and the terminal log).

pub mod assets;
pub mod geometry;
pub mod laws;
pub mod raster;
pub mod scene;
pub mod state;
