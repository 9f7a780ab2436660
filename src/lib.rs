pub mod display;
pub mod session;
pub mod session_laws;
pub mod tui_typing_state;
