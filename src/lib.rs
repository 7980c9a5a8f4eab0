//! The reply-handling core of a command-line assistant that asks a
//! chat-completion service for code: the classifier that reads a raw reply
//! body, the scanner that pulls fenced code blocks out of the reply's text,
//! and the small pieces around them (prompt, command line, what is shown).
pub mod classify;
pub mod cli;
pub mod extract;
pub mod json;
pub mod prompt;
pub mod report;
