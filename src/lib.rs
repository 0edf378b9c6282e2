//! Nested, input-driven scrolling for a tree of UI regions.
//!
//! A scroll region is a viewport over one or more content nodes. Each content
//! node carries an offset that is kept within `[-max_scroll, 0]` on the
//! region's axis. Input events are offered to the candidate regions
//! innermost-first; a region that scrolls and does not propagate consumes the
//! event, and a region without overflow is transparent to it.
//!
//! All lengths are layout pixels held as integers; frame time is held in
//! microseconds.

pub mod laws;
pub mod offset;
pub mod resolver;
pub mod wheel;

pub use offset::{scroll_axis, Outcome, ScrollView, ScrollableContent, Size, DEFAULT_SCROLL_SPEED};
pub use resolver::{
    create_scroll_view, handle_scroll_for_view, Content, Interaction, Region, ScrollInput,
    ScrollTree,
};
pub use wheel::{wheel_scroll_amount, ScrollUnit};
