//! The compact wallpaper picker: its arguments, remembered state, folder scan and preview
//! queue.
pub mod model;
pub mod cli;
pub mod state;
pub mod scanner;
pub mod preview;
pub mod apply;
pub mod desktop;
pub mod carousel;
pub mod thumbnail;
pub mod layer;
pub mod placement;
pub mod keys;
pub mod worker;
