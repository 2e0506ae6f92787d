//! The logic of a desktop cat that watches coding agents at work.

pub mod approve;
pub mod cat;
pub mod cat_layout;
pub mod chance;
pub mod clock;
pub mod colony;
pub mod display;
pub mod dock;
pub mod drag;
pub mod events;
pub mod gui;
pub mod i18n;
pub mod installer;
pub mod json;
pub mod listen;
pub mod logger;
pub mod otlp;
pub mod server;
pub mod sprite;
pub mod tail;
pub mod text;
pub mod tomldoc;
pub mod tray;
