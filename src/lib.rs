//! A small interactive shell: line tokenizing, command dispatch, and the
//! `ls` built-in's option handling and listing rendering.
pub mod command;
pub mod echo;
pub mod exit;
pub mod ls;
pub mod permissions;
pub mod shell;
pub mod text;
