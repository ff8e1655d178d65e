//! The integer side of a Monte-Carlo ray tracer: the image layout and the
//! order in which pixels are produced, the bounce budget that ends every
//! camera path, the choice between the two roots of a ray/sphere equation,
//! and the plain-text raster format the finished image is written in.

pub mod ppm;
pub mod layout;
pub mod path;
pub mod roots;
