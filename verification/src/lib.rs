//! Mesh networking stack that carries IPv4 traffic between hosts over a
//! half-duplex LoRa radio link.
//!
//! The crate holds the frame codec with chunking and reassembly, the typed
//! message layer, the mesh router, the radio line protocol with its transmit
//! arbiter, and the decisions of the node event loop. Every function carries
//! a contract that is checked by Verus.

pub mod addr;
pub mod broadcast;
pub mod chunk;
pub mod frame;
pub mod graph;
pub mod hexcodec;
pub mod ipassign;
pub mod ippacket;
pub mod message;
pub mod node;
pub mod packet;
pub mod radio;
pub mod random;
pub mod reassembly;
pub mod router;
pub mod settings;
pub mod tun;
pub mod util;
