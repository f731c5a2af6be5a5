//! Integer core of a one-ray-per-pixel renderer: the geometry of a row-major
//! frame, the choice of the closest hit among candidate distances, and the
//! packing of quantised colour channels into 32-bit pixels.

pub mod color;
pub mod frame;
pub mod scene;
