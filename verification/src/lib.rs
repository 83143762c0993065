//! The verified core of an assistant to the League of Legends client.
//!
//! The modules hold what the assistant decides and computes: which requests it sends
//! to the client and what it makes of the answers (`lcu`), how it reacts to the phases
//! of a game (`app`), and what its overlay shows (`win`); `laws` states what can be relied
//! on across them. Input and output are left to the program around the library: it performs
//! the effects that the functions here return, and hands back what came of them.

pub mod app;
pub mod json;
pub mod laws;
pub mod lcu;
pub mod text;
pub mod win;
