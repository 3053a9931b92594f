pub mod friends;
pub mod invite;
pub mod privacy;
pub mod status;
pub mod user;
