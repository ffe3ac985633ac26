//! Core of a clipboard translator: durable language preferences and the
//! target-language selection engine.
//!
//! The library models languages as a closed enum, reads and writes the
//! configuration document in a small TOML-like format of its own, repairs
//! invalid records, and decides which language a piece of text should be
//! translated into.  All I/O, the window toolkit, the statistical language
//! detector and the translation provider live outside the library; callers
//! hand in plain values (detected source language, file contents) and take
//! plain values back.

pub mod clipboard;
pub mod codec;
pub mod config;
pub mod language;
pub mod orchestrator;
pub mod selection;
pub mod settings;
pub mod strutil;
