//! The verified core of an OSC sender that hands an avatar a key, byte by
//! byte, masked by the key's SHA-256 digest.
pub mod icon;
pub mod options;
pub mod osc;
pub mod task;
pub mod text;
pub mod tray;
pub mod ui;
pub mod window;
