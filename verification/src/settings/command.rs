pub use crate::settings::keybind::Command;
