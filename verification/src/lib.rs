//! Kalvita: an array-first, expression-driven scripting language.
//!
//! The library turns source text into a program and runs it as a machine that
//! never performs input or output itself: it asks its host for what only the
//! host can do and goes on with the answer.

pub mod algebra;
pub mod answers;
pub mod arrays;
pub mod arrlib;
pub mod ast;
pub mod builtins;
pub mod calendar;
pub mod calling;
pub mod clock;
pub mod comparing;
pub mod complaints;
pub mod depth;
pub mod document;
pub mod draft;
pub mod driver;
pub mod exchange;
pub mod execute;
pub mod figures;
pub mod flows;
pub mod glob;
pub mod grammar;
pub mod gui;
pub mod happenings;
pub mod hosting;
pub mod identity;
pub mod importing;
pub mod imports;
pub mod json;
pub mod laws;
pub mod lexer;
pub mod machine;
pub mod meaning;
pub mod nesting;
pub mod number;
pub mod numeral;
pub mod operators;
pub mod outcomes;
pub mod parser;
pub mod precedence;
pub mod remarks;
pub mod render;
pub mod request;
pub mod running;
pub mod runtime;
pub mod scanner;
pub mod semantics;
pub mod show;
pub mod sort;
pub mod soundness;
pub mod state;
pub mod steps;
pub mod strings;
pub mod strlib;
pub mod summing;
pub mod syntax;
pub mod syslib;
pub mod table;
pub mod tables;
pub mod targets;
pub mod text;
pub mod texts;
pub mod widgets;
pub mod windows;
pub mod words;
pub mod writing;
