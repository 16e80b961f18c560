//! Verified core of Jester, a tester for J2534 PassThru devices.
//!
//! The library holds what the application decides and computes: the wire
//! types of the bridge protocol, the encoding of CAN frames into PassThru
//! messages and back, the reading of PE headers, the registry device list,
//! the name clean-up, and the session bookkeeping of the front end.
//! Loading DLLs, talking over pipes, the registry and the file system are
//! left to the application around it.

pub mod text;
pub mod protocol;
pub mod bridge_client;
pub mod j2534;
pub mod j2534_unified;
pub mod commands;
