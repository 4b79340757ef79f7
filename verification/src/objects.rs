pub mod approval;
pub mod base;
pub mod controller;
pub mod dynamic;
pub mod edit;
pub mod handlers;
pub mod kinds;
pub mod meta;
pub mod parts;
pub mod v1;
