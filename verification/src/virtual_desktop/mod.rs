//! The virtual desktops: the indicator on the taskbar, and the picture that it shows.

pub mod canvas;
pub mod indicator;
