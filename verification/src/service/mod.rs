pub mod status;
pub mod privacy;
pub mod userprofile;
pub mod wss;
pub mod friend;
pub mod invite;
pub mod user;
