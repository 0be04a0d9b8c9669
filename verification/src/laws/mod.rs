//! What holds of every access-control list.

pub mod addresses;
pub mod hosts;
pub mod policies;
pub mod resolving;
pub mod rules;
pub mod urls;
