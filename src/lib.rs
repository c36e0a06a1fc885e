//! GPIO pin and port abstraction for a Renesas RA family microcontroller.
//!
//! The library has two parts: a reader for the textual pin-configuration
//! report together with the writer of the per-pin table that downstream code
//! expands (`pin_config`, `pin_table`), and the runtime pin layer (`gpio`),
//! whose register operations act on an explicit model of the port register
//! blocks.
pub mod gpio;
pub mod pin_config;
pub mod pin_table;
