//! Memory of one agent on top of a backend that many agents share.

pub mod agent_scoped;
pub mod call;
pub mod entry;
pub mod grants;
pub mod guarantees;
pub mod laws;
pub mod reads;
pub mod scope;
pub mod writes;
