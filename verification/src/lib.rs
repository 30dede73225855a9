//! Driver logic for an HD44780U character display on a 4-bit parallel interface.
//!
//! The display is a stateful peripheral reached through a handful of pins. This
//! crate decides what has to be done to those pins and in which order; it never
//! touches a pin itself. A caller lays down a script with [`script::setup_lcd`]
//! or [`script::send_text_to_lcd`], hands it to a [`driver::Driver`], performs
//! each [`driver::Action`] it is given and reports what came of it as a
//! [`driver::Event`].
//!
//! - [`nibble`]: nibbles and the encoding of characters
//! - [`signal`]: the control lines and their levels
//! - [`wiring`]: bus width and the way of waiting for the controller
//! - [`script`]: the operations of a transmission, of the initialization and of a text
//! - [`driver`]: the driver, one operation and one report at a time
//! - [`shape`]: what holds of every script
//! - [`runs`]: what holds of every run of the driver
//! - [`controller`]: what the controller takes in while a script is performed
//! - [`end_to_end`]: the driver and the controller together

pub mod nibble;
pub mod signal;
pub mod wiring;
pub mod script;
pub mod driver;
pub mod shape;
pub mod runs;
pub mod controller;
pub mod end_to_end;
