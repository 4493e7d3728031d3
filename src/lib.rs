//! A terminal progress indicator: the state of one progress session, and the
//! renderer that turns it into one line of text.
//!
//! The renderer works on integers: time in milliseconds, angles in
//! microradians, rates and ratios in thousandths.
pub mod arith;
pub mod text;
pub mod style;
pub mod elapsed;
pub mod bar;
pub mod layout;
pub mod session;

pub use arith::modulus;
pub use bar::{determinate_bar, fill_columns, indeterminate_bar, segment_width, slide_offset};
pub use elapsed::format_elapsed;
pub use layout::{bar_width, title_suffix, total_of};
pub use session::Session;
pub use style::{BarStyle, ProgressStyle, SlideStyle};
