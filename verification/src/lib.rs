//! A text-mode display driver for a VGA-style character grid.
//!
//! The driver turns a stream of raw bytes into two-byte display cells
//! (character code plus packed colour attribute), renders them on the
//! bottom row of a fixed-size grid, and scrolls the grid up by one row
//! whenever a newline byte arrives.

pub mod vga;
