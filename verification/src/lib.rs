//! Document, layer and brush model of a layered raster painting program.
//!
//! The library holds everything the painting program decides: which layers a
//! document has and which one is active, what a stroke does with the current
//! tool and brush, how a layer is cleared, which layers are composited, how
//! documents and layers are named, and how the desktop session is recognised.
//! Pixel work and widgets stay with the program that uses the library.

pub mod text;
pub mod brush;
pub mod stroke;
pub mod layer;
pub mod document;
pub mod workspace;
pub mod session;
