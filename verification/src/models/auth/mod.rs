pub mod pin;
pub mod token;
