pub mod objects;
pub mod textmap;
pub mod validate;
