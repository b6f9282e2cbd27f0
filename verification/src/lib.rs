//! Handshake logic of a tray launcher for a floating focus-timer widget.
//!
//! The launcher lives in the system tray. On a click it starts the widget as
//! a process of its own, and the two exchange an auth token and a refresh
//! trigger through two files in the temporary directory. This crate holds
//! every decision of that exchange; the host application owns the tray, the
//! files and the processes, and does what the crate tells it.

pub mod decimal;
pub mod enhanced_widget;
pub mod handshake;
pub mod native_widget;
pub mod numeral;
pub mod text;
pub mod tray;
