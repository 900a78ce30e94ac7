pub mod approvals;
pub mod env;
pub mod error;
pub mod execute;
pub mod expiration;
pub mod laws;
pub mod msg;
pub mod receiver;
pub mod response;
pub mod state;
