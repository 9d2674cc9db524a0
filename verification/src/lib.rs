pub mod basics;
pub mod guessing;
pub mod ownership;
