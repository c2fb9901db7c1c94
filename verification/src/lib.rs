//! Logic of an in-game overlay for Bloody Trapland, a 32-bit .NET game.
//!
//! Nothing in this crate touches the process it runs in. Memory of the game is
//! seen through [`mem::Memory`], a picture of the address space that is filled
//! in on demand: a function that needs a region descriptor or some bytes which
//! the picture does not hold yet returns the missing item as a [`mem::Need`],
//! the caller fetches it and calls again. Everything else that the operating
//! system, the hooking library or the user interface decides reaches this crate
//! as a plain argument.
//!
//! | Module | Responsibility |
//! |---|---|
//! | [`scan`] | signature search in executable memory |
//! | [`hook`] | life cycle of the `SetPosition` hook and its object buffer |
//! | [`mem`] | checked access to the memory of the game |
//! | [`offsets`] | field offsets of the game objects |
//! | [`game`] | reading and editing game objects |
//! | [`overlay`] | decisions of the user interface |
//! | [`text`] | interface strings in two languages |
//! | [`font`] | glyph ranges of the interface font |
//! | [`log`] | layout of log lines and choice of the log file |
//! | [`entry`] | loading and unloading of the library |
//!
//! The remaining modules are tools of these: [`gather`] speaks of sequences of
//! fetches, [`numeral`] writes numbers, [`single`] carries numbers in single
//! precision, [`trial`] takes the first of several candidates that works,
//! [`utf16`] knows the text of the game, and [`win32`] names what the operating
//! system says of memory.
pub mod entry;
pub mod font;
pub mod game;
pub mod gather;
pub mod hook;
pub mod log;
pub mod mem;
pub mod numeral;
pub mod offsets;
pub mod overlay;
pub mod scan;
pub mod single;
pub mod text;
pub mod trial;
pub mod utf16;
pub mod win32;
