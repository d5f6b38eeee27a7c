//! Control logic of a real-time echo-cancelling audio bridge.
//!
//! The bridge captures a microphone, cancels the echo of what the speaker plays and hands the
//! result to a virtual microphone. This crate holds what it decides and how it moves samples
//! about; devices, threads, the terminal and floating-point signal processing stay outside.

pub mod bridge;
pub mod calibration;
pub mod console;
pub mod devices;
pub mod frames;
pub mod gate;
pub mod highpass;
pub mod layout;
pub mod level;
pub mod panels;
pub mod preset;
pub mod processor;
pub mod sessions;
pub mod single;
pub mod text;
