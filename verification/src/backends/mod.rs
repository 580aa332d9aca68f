pub mod awww;
pub mod hyprpaper;
pub mod model;
pub mod mpvpaper;
pub mod swaybg;
