//! Code generation core for cloud service clients: identifier translation,
//! serialization reachability, shape-to-declaration compilation, protocol
//! selection and the service error enumeration.

pub mod names;
pub mod model;
pub mod reach;
pub mod protocol;
pub mod declare;
pub mod errors;
pub mod generate;
pub mod call_state;
