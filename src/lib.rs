//! A bot that collects the status lines users send it in private, and renders them into
//! a report on request.

pub mod directory;
pub mod engine;
pub mod render;
pub mod store;

pub use directory::{Directory, UserInfo};
pub use engine::{get_edited_message, get_message, Event, MsgData, PMHandler, SendReport};
pub use render::template_output;
pub use store::StatusStore;
