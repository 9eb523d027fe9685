//! The window shell: titlebar menu links, navigation buttons and desktop
//! notifications.

pub mod menu;
pub mod navigation;

pub mod notification;
pub mod startup;
pub mod tray;
