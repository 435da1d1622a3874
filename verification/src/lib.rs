//! A frame-synchronised presentation loop for a small handheld display.
//!
//! The crate holds the decision logic of such a loop as plain, verified data
//! transformations:
//!
//! * [`tokens`] and [`wrap`]: greedy word wrapping of dialogue text into
//!   fixed-width lines;
//! * [`background`]: a tile grid that is cleared through a short-lived scratch tile;
//! * [`sprite`]: a fixed set of sprite slots whose attributes are staged and
//!   flushed to the display table in one batch;
//! * [`motion`]: movement of a sprite inside the display bounds;
//! * [`controller`]: the per-frame protocol that ties the parts together.
//!
//! Nothing here touches hardware. A caller samples input, hands it to
//! [`controller::GameLoop::step`], and performs the returned actions in order.

pub mod tokens;
pub mod wrap;
pub mod sprite;
pub mod motion;
pub mod background;
pub mod controller;
