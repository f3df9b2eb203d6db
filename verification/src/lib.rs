//! Compiles a parsed document into a navigable terminal presentation.
//!
//! A document comes as a sequence of block-level elements. The builder turns
//! them into slides, each made of chunks of render operations; the
//! presentation moves through the slides; the presenter takes the commands
//! of a session and decides what is shown, redrawn and reloaded.
//!
//! The library reads no file, draws nothing and runs no process. What was
//! loaded, launched and seen is handed to it as plain values.

// The elements of a document, and the styles and themes they are drawn with.
pub mod elements;
pub mod metadata;
pub mod style;
pub mod theme;

// Text, YAML and syntax highlighting.
pub mod highlighter;
pub mod text;
pub mod yaml;

// Render operations, and what the dynamic ones draw.
pub mod execution;
pub mod highlight;
pub mod operation;
pub mod render;
pub mod widgets;

// Chunks, slides and presentations.
pub mod chunk;
pub mod presentation;

// The builder.
pub mod blocks;
pub mod builder;
pub mod code;
pub mod codeblock;
pub mod command;
pub mod compile;
pub mod message;
pub mod numbering;
pub mod resource;
pub mod tables;
pub mod walk;

// What holds of every presentation that was built.
pub mod layout;
pub mod lead;
pub mod order;

// The session.
pub mod presenter;
