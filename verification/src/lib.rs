//! The logic of `thunder`: a command-line download client for the 迅雷 drive API, and
//! the daemon that serves it. What has to be sent, read from the system or done to it is
//! said here; doing it is left to the program.

pub mod api;
pub mod client;
pub mod daemon;
pub mod dl;
pub mod drive;
pub mod encode;
pub mod json;
pub mod model;
pub mod number;
pub mod output;
pub mod pick;
pub mod serve;
pub mod show;
pub mod size;
pub mod source;
pub mod text;
pub mod walk;
