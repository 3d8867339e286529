pub mod color;
pub mod filament;
pub mod picker;
pub mod history;
pub mod grid;
pub mod keys;
pub mod purge;
pub mod automation;
pub mod new_filament;
pub mod calibration;
pub mod enter_purge;
pub mod enter_purge2;
pub mod tabs;
pub mod cache;
