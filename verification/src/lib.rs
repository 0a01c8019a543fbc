pub mod errors;
pub mod helpers;
pub mod json;
pub mod lobby;
pub mod messages;
pub mod models;
pub mod session;
pub mod text;
