//! Line output for a terminal spinner: what each tick and the final stop put on
//! a sink, byte for byte, and the in-memory surface that a UI can show instead
//! of a terminal.
//!
//! - [`stream`]: the sinks and the line protocol over them.
//! - [`widget`]: the surface, and the text that it shows.
//! - [`line`]: the three shapes of a line.
//! - [`elapsed`]: the elapsed-time field of a timed tick.
//! - [`clock`]: the time from one instant to another.
//! - [`text`]: text as bytes.

pub mod clock;
pub mod elapsed;
pub mod line;
pub mod stream;
pub mod text;
pub mod widget;

pub use stream::Stream;
pub use widget::SpinnerWidget;
