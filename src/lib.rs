//! A frame scheduler for a GPU particle simulation shown in a window: the
//! particle records and their buffer layout, the one-time upload plan, the
//! per-image fence slots, the frame loop as a state machine, and the choice
//! of device and present mode.
pub mod particle;
pub mod tracker;
pub mod scheduler;
pub mod device;
pub mod staging;
