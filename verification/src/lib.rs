//! A peer-to-peer text relay. A registry maps each live connection
//! identifier to a handle that can push a text frame to that connection;
//! a session, one per accepted connection, routes each inbound text frame
//! to its one fixed peer; the upgrade endpoint decides whether a
//! connection request becomes a registered session. The string-building
//! helpers the surrounding HTTP glue needs live beside them.

pub mod endpoint;
pub mod firebase;
pub mod registry;
pub mod session;
pub mod users;
