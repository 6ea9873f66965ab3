//! Verified core of the Discowl browser shell: the decisions that sit between
//! the Slint user interface and the Servo engine.

pub mod frame;
pub mod pacing;
pub mod adapter;
pub mod delegate;
pub mod input;
pub mod navigation;
pub mod parsed_url;
pub mod webview;
