pub mod action;
pub mod buffer;
pub mod chars;
pub mod clipboard;
pub mod context;
pub mod edit;
pub mod editor;
pub mod entry;
pub mod input;
pub mod motion;
pub mod notebook;
pub mod prompt;
pub mod transitions;
pub mod viewport;
