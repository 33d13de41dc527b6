//! Simulation of colour-vision deficiencies on RGBA images.
//!
//! The crate holds what can be stated exactly: which simulation a mode
//! selects, the parameters of the three dichromat families, the luminance-only
//! reduction of achromatic vision, and the traversal of an image buffer. The
//! confusion-line projection of the dichromat modes is real-valued; the caller
//! supplies it as a function on single pixels, and `process` states what it
//! does with that function.

pub mod buffer;
pub mod mode;
pub mod pixel;
pub mod simulate;

pub use crate::buffer::buffer_len;
pub use crate::buffer::coord;
pub use crate::mode::DeficiencyModel;
pub use crate::mode::Family;
pub use crate::mode::Mode;
pub use crate::mode::MODEL_SCALE;
pub use crate::pixel::process_clr_achroma;
pub use crate::pixel::Pixel;
pub use crate::simulate::process;
pub use crate::simulate::process_pixel;
pub use crate::simulate::try_process;
pub use crate::simulate::WrongSize;
