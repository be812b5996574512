//! Transport configuration and the detection of Thunderbolt links.
use crate::net::{IpAddress, SocketAddress};
use crate::protocol::MAX_UDP_PACKET_SIZE;
use vstd::prelude::*;

verus! {

/// Default ports for Bridge services.
pub const DEFAULT_CONTROL_PORT: u16 = 9420;

pub const DEFAULT_VIDEO_PORT: u16 = 9421;

pub const DEFAULT_AUDIO_PORT: u16 = 9422;

pub const DEFAULT_INPUT_PORT: u16 = 9423;

/// Service name for Bonjour discovery.
pub const SERVICE_TYPE: &'static str = "_bridge._tcp";

pub const SERVICE_DOMAIN: &'static str = "local.";

/// Transport configuration.
#[derive(Debug, Clone, Copy, PartialEq, Eq, Structural)]
pub struct TransportConfig {
    /// Control channel port (QUIC).
    pub control_port: u16,
    /// Video stream port (UDP).
    pub video_port: u16,
    /// Audio stream port (UDP).
    pub audio_port: u16,
    /// Input events port (UDP).
    pub input_port: u16,
    /// Maximum packet size for UDP.
    pub max_packet_size: usize,
    /// Send buffer size.
    pub send_buffer_size: usize,
    /// Receive buffer size.
    pub recv_buffer_size: usize,
}

impl TransportConfig {
    /// The configuration where nothing else is asked for: socket buffers of
    /// 16 MiB and packets that fit an Ethernet frame.
    pub open spec fn initial() -> TransportConfig {
        TransportConfig {
            control_port: DEFAULT_CONTROL_PORT,
            video_port: DEFAULT_VIDEO_PORT,
            audio_port: DEFAULT_AUDIO_PORT,
            input_port: DEFAULT_INPUT_PORT,
            max_packet_size: MAX_UDP_PACKET_SIZE,
            send_buffer_size: 16_777_216,
            recv_buffer_size: 16_777_216,
        }
    }
}

impl Default for TransportConfig {
    fn default() -> (c: Self)
        ensures
            c == TransportConfig::initial(),
    {
        TransportConfig {
            control_port: DEFAULT_CONTROL_PORT,
            video_port: DEFAULT_VIDEO_PORT,
            audio_port: DEFAULT_AUDIO_PORT,
            input_port: DEFAULT_INPUT_PORT,
            max_packet_size: MAX_UDP_PACKET_SIZE,
            send_buffer_size: 16_777_216,
            recv_buffer_size: 16_777_216,
        }
    }
}

/// Whether an address lies in the link-local range that Thunderbolt links use.
pub open spec fn is_link_local_v4(ip: IpAddress) -> bool {
    ip matches IpAddress::V4(a, b, _, _) && a == 169 && b == 254
}

/// Get the local Thunderbolt IP address if available. None is ever detected.
pub fn get_thunderbolt_address() -> (r: Option<SocketAddress>)
    ensures
        r is None,
{
    None
}

/// Check if running over Thunderbolt connection.
pub fn is_thunderbolt_connection(addr: &SocketAddress) -> (b: bool)
    ensures
        b == is_link_local_v4(addr.ip),
{
    match addr.ip {
        IpAddress::V4(a, b, _, _) => a == 169 && b == 254,
        IpAddress::V6(..) => false,
    }
}

/// Exactly the addresses from 169.254.0.0 to 169.254.255.255 are those of
/// Thunderbolt links.
pub proof fn law_link_local_addresses(a: u8, b: u8, c: u8, d: u8, other: IpAddress)
    ensures
        is_link_local_v4(IpAddress::V4(a, b, c, d)) <==> a == 169 && b == 254,
        other is V6 ==> !is_link_local_v4(other),
{
}

/// Each channel has a port of its own, one behind the other.
pub proof fn law_channels_have_their_own_ports()
    ensures
        ({
            let c = TransportConfig::initial();
            &&& c.control_port == 9420
            &&& c.video_port == c.control_port + 1
            &&& c.audio_port == c.video_port + 1
            &&& c.input_port == c.audio_port + 1
            &&& c.max_packet_size == 1400
            &&& c.send_buffer_size == c.recv_buffer_size
            &&& c.send_buffer_size == 16 * 1024 * 1024
        }),
{
}

} // verus!
