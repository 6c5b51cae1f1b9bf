//! What the user sees and answers: peer events, the handler that shows them, and the
//! terminal rendering.

pub mod interaction;
pub mod cli_handler;
