//! Core of a per-surface screen recorder: activity gating, frame
//! differencing, encoder feeding and tick scheduling, as verified logic.

pub mod text;
pub mod timestamp;
pub mod quoted;
pub mod activity;
pub mod logline;
pub mod frame;
pub mod diff;
pub mod encode;
pub mod pacing;
pub mod capture;
