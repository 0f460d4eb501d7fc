pub mod clock;
pub mod config;
pub mod hash;
pub mod identity;
pub mod login;
pub mod models;
pub mod random;
pub mod signup;
pub mod storage;
pub mod validate;
