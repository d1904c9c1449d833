//! What the peer-to-peer node decides: which gossiped blocks it appends,
//! which peer chains it adopts, which peers it asks for their chain, and what
//! a line typed on its console asks for.

pub mod sync;
pub mod command;
