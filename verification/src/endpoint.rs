//! The EtherCAT endpoint: where its threads run, its simulated drives and the object
//! dictionary of its drive-off stand-in.

pub mod cpu_list;
pub mod pair;
pub mod sim;
pub mod stub;
