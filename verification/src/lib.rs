//! Shows raster images on a character terminal. Every terminal cell carries
//! two stacked pixels, the upper as the foreground colour of a half-block
//! glyph and the lower as its background colour.
//!
//! A render takes an image, the view state and the terminal's size to a grid
//! of cells: [`display::map`] selects the part of the image in view and
//! resamples it, [`compositor::composite`] centres the result over a
//! checkerboard backdrop and blends the two. [`events`] turns keys into
//! commands on the view state, [`prompt`] edits the line typed at a prompt.
//!
//! All arithmetic is on integers: positions, sizes and factors with a
//! fractional part count thousandths, and every division rounds down.

pub mod color;
pub mod compositor;
pub mod display;
pub mod events;
pub mod geometry;
pub mod prompt;
pub mod raster;
