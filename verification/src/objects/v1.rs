pub mod contracts;
pub mod declare;
pub mod global_proposal;
pub mod namespace;
pub mod proposal;
pub mod record;
