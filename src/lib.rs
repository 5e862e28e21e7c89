//! Core of a client-side voice gateway: the lifecycle states shared by the
//! media tasks, the RTP framing and its authenticated encryption, the
//! per-source packet queues of the receive path and the decisions of the
//! control channel.

pub mod crypto;
pub mod error;
pub mod gateway;
pub mod payload;
pub mod player;
pub mod queue;
pub mod recorder;
pub mod rtp;
pub mod state;
