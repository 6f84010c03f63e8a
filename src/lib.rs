//! The negotiation, demultiplexing and RTP/RTCP core of a WebRTC endpoint.

pub mod demux;
pub mod peer_connection;
pub mod rtp;
pub mod sdp;
pub mod signaling;
pub mod stats;
pub mod table;
pub mod text;
pub mod transceiver;

pub use peer_connection::{PeerConnection, SessionDescription};
pub use sdp::MediaKind;
pub use signaling::{RtcError, SdpType, SignalingState};
