//! The handshake between client and server, and the channels that it opens.
use crate::control::{ControlView, HelloView, WelcomeView};
use crate::error::{BridgeError, BridgeResult};
use crate::net::{IpAddress, SocketAddress};
use crate::protocol::{
    AudioConfig, ControlMessage, HelloMessage, VideoCodec, VideoConfig, WelcomeMessage,
    PROTOCOL_VERSION,
};
use crate::transport::TransportConfig;
use crate::types::ConnectionState;
use crate::udp::{is_protocol_error, UdpChannel};
use vstd::prelude::*;
use vstd::string::StringExecFns;

verus! {

/// The address of a host with a port.
pub open spec fn at_port(ip: IpAddress, port: u16) -> SocketAddress {
    SocketAddress { ip, port, flow_info: 0, scope_id: 0 }
}

fn address_at_port(ip: IpAddress, port: u16) -> (a: SocketAddress)
    ensures
        a == at_port(ip, port),
{
    SocketAddress { ip, port, flow_info: 0, scope_id: 0 }
}

/// State of a complete Bridge connection: control and data channels.
#[derive(Debug, Clone, Copy, PartialEq, Eq, Structural)]
pub struct BridgeConnection {
    /// Current connection state.
    pub state: ConnectionState,
    /// Remote address.
    pub remote_addr: SocketAddress,
    /// Transport configuration.
    pub config: TransportConfig,
    /// Whether the control channel is open.
    pub control_open: bool,
    /// Video channel (UDP).
    pub video_channel: Option<UdpChannel>,
    /// Audio channel (UDP).
    pub audio_channel: Option<UdpChannel>,
    /// Input channel (UDP).
    pub input_channel: Option<UdpChannel>,
    /// Negotiated video configuration.
    pub video_config: Option<VideoConfig>,
    /// Negotiated audio configuration.
    pub audio_config: Option<AudioConfig>,
}

/// A fresh channel in server mode.
pub open spec fn bound(max_packet_size: usize) -> Option<UdpChannel> {
    Some(UdpChannel { remote_addr: None, max_packet_size, send_sequence: 0 })
}

/// A fresh channel to an address.
pub open spec fn connected_to(addr: SocketAddress, max_packet_size: usize) -> Option<UdpChannel> {
    Some(UdpChannel { remote_addr: Some(addr), max_packet_size, send_sequence: 0 })
}

/// The first message of a client.
pub open spec fn hello_view(
    client_name: Seq<char>,
    video_config: VideoConfig,
    audio_config: AudioConfig,
) -> HelloView {
    HelloView { client_name, protocol_version: PROTOCOL_VERSION, video_config, audio_config }
}

/// The answer of a server that grants `video_config`.
pub open spec fn welcome_view(
    config: TransportConfig,
    server_name: Seq<char>,
    hello: HelloView,
    video_config: VideoConfig,
) -> WelcomeView {
    WelcomeView {
        server_name,
        video_config,
        audio_config: hello.audio_config,
        video_port: config.video_port,
        audio_port: config.audio_port,
    }
}

/// The server's connection once it has granted `video_config`.
pub open spec fn accepted(
    remote_addr: SocketAddress,
    config: TransportConfig,
    hello: HelloView,
    video_config: VideoConfig,
) -> BridgeConnection {
    BridgeConnection {
        state: ConnectionState::Connected,
        remote_addr,
        config,
        control_open: true,
        video_channel: bound(config.max_packet_size),
        audio_channel: bound(config.max_packet_size),
        input_channel: bound(config.max_packet_size),
        video_config: Some(video_config),
        audio_config: Some(hello.audio_config),
    }
}

/// The client's connection once it has been welcomed.
pub open spec fn established(c: BridgeConnection, welcome: WelcomeView) -> BridgeConnection {
    BridgeConnection {
        state: ConnectionState::Connected,
        control_open: true,
        video_channel: connected_to(
            at_port(c.remote_addr.ip, welcome.video_port),
            c.config.max_packet_size,
        ),
        audio_channel: connected_to(
            at_port(c.remote_addr.ip, welcome.audio_port),
            c.config.max_packet_size,
        ),
        input_channel: connected_to(
            at_port(c.remote_addr.ip, c.config.input_port),
            c.config.max_packet_size,
        ),
        video_config: Some(welcome.video_config),
        audio_config: Some(welcome.audio_config),
        ..c
    }
}

/// The video configuration that a server grants: the one asked for, except that
/// video over Thunderbolt is not compressed.
pub open spec fn granted(asked: VideoConfig, is_thunderbolt: bool) -> VideoConfig {
    if is_thunderbolt {
        VideoConfig { codec: VideoCodec::Raw, ..asked }
    } else {
        asked
    }
}

impl BridgeConnection {
    /// Create a new connection to a remote server.
    pub fn new(remote_addr: SocketAddress, config: TransportConfig) -> (c: Self)
        ensures
            c == (BridgeConnection {
                state: ConnectionState::Disconnected,
                remote_addr,
                config,
                control_open: false,
                video_channel: None,
                audio_channel: None,
                input_channel: None,
                video_config: None,
                audio_config: None,
            }),
    {
        BridgeConnection {
            state: ConnectionState::Disconnected,
            remote_addr,
            config,
            control_open: false,
            video_channel: None,
            audio_channel: None,
            input_channel: None,
            video_config: None,
            audio_config: None,
        }
    }

    /// Get current connection state.
    pub fn state(&self) -> (s: ConnectionState)
        ensures
            s == self.state,
    {
        self.state
    }

    /// Get negotiated video configuration.
    pub fn video_config(&self) -> (r: Option<VideoConfig>)
        ensures
            r == self.video_config,
    {
        self.video_config
    }

    /// Get negotiated audio configuration.
    pub fn audio_config(&self) -> (r: Option<AudioConfig>)
        ensures
            r == self.audio_config,
    {
        self.audio_config
    }

    /// Starts to connect, and gives the address of the control channel.
    pub fn connect_control(&mut self) -> (a: SocketAddress)
        ensures
            *final(self) == (BridgeConnection { state: ConnectionState::Connecting, ..*old(self) }),
            a == at_port(old(self).remote_addr.ip, old(self).config.control_port),
    {
        self.state = ConnectionState::Connecting;
        address_at_port(self.remote_addr.ip, self.config.control_port)
    }

    /// Starts the handshake once the control channel is open, and gives the
    /// message to send.
    pub fn hello_with_config(
        &mut self,
        client_name: &str,
        video_config: VideoConfig,
        audio_config: AudioConfig,
    ) -> (m: ControlMessage)
        ensures
            *final(self) == (BridgeConnection { state: ConnectionState::Handshaking, ..*old(self) }),
            m@ == ControlView::Hello(hello_view(client_name@, video_config, audio_config)),
    {
        self.state = ConnectionState::Handshaking;
        ControlMessage::Hello(
            HelloMessage {
                client_name: String::from_str(client_name),
                protocol_version: PROTOCOL_VERSION,
                video_config,
                audio_config,
            },
        )
    }

    /// Starts the handshake with the default configurations.
    pub fn hello(&mut self, client_name: &str) -> (m: ControlMessage)
        ensures
            *final(self) == (BridgeConnection { state: ConnectionState::Handshaking, ..*old(self) }),
            m@ == ControlView::Hello(
                hello_view(client_name@, VideoConfig::initial(), AudioConfig::initial()),
            ),
    {
        self.hello_with_config(client_name, VideoConfig::default(), AudioConfig::default())
    }

    /// The server's answer to a `Hello`: it has to be a `Welcome`.
    pub fn expect_welcome(msg: ControlMessage) -> (r: BridgeResult<WelcomeMessage>)
        ensures
            match r {
                Ok(w) => msg@ == ControlView::Welcome(w@),
                Err(e) => !(msg@ is Welcome) && is_protocol_error(e, "Expected Welcome message"@),
            },
    {
        match msg {
            ControlMessage::Welcome(w) => Ok(w),
            _ => Err(BridgeError::Protocol(String::from_str("Expected Welcome message"))),
        }
    }

    /// The addresses of the video, audio and input channels that a `Welcome`
    /// names.
    pub fn channel_addresses(&self, welcome: &WelcomeMessage) -> (r: (
        SocketAddress,
        SocketAddress,
        SocketAddress,
    ))
        ensures
            r.0 == at_port(self.remote_addr.ip, welcome@.video_port),
            r.1 == at_port(self.remote_addr.ip, welcome@.audio_port),
            r.2 == at_port(self.remote_addr.ip, self.config.input_port),
    {
        (
            address_at_port(self.remote_addr.ip, welcome.video_port),
            address_at_port(self.remote_addr.ip, welcome.audio_port),
            address_at_port(self.remote_addr.ip, self.config.input_port),
        )
    }

    /// Ends the handshake once the channels are open.
    pub fn establish(&mut self, welcome: &WelcomeMessage)
        ensures
            *final(self) == established(*old(self), welcome@),
    {
        let (video, audio, input): (SocketAddress, SocketAddress, SocketAddress) =
            self.channel_addresses(welcome);
        let size: usize = self.config.max_packet_size;
        self.video_channel = Some(UdpChannel::connect(video, size));
        self.audio_channel = Some(UdpChannel::connect(audio, size));
        self.input_channel = Some(UdpChannel::connect(input, size));
        self.video_config = Some(welcome.video_config);
        self.audio_config = Some(welcome.audio_config);
        self.control_open = true;
        self.state = ConnectionState::Connected;
    }

    /// A client's first message: it has to be a `Hello`.
    pub fn expect_hello(msg: ControlMessage) -> (r: BridgeResult<HelloMessage>)
        ensures
            match r {
                Ok(h) => msg@ == ControlView::Hello(h@),
                Err(e) => !(msg@ is Hello) && is_protocol_error(e, "Expected Hello message"@),
            },
    {
        match msg {
            ControlMessage::Hello(h) => Ok(h),
            _ => Err(BridgeError::Protocol(String::from_str("Expected Hello message"))),
        }
    }

    /// Accepts a client with the given video configuration (server mode): the
    /// connection, and the answer to send.
    pub fn accept_with_negotiation(
        remote_addr: SocketAddress,
        config: TransportConfig,
        server_name: &str,
        hello: &HelloMessage,
        video_config: VideoConfig,
    ) -> (r: (BridgeConnection, ControlMessage))
        ensures
            r.0 == accepted(remote_addr, config, hello@, video_config),
            r.1@ == ControlView::Welcome(welcome_view(config, server_name@, hello@, video_config)),
    {
        let welcome = WelcomeMessage {
            server_name: String::from_str(server_name),
            video_config,
            audio_config: hello.audio_config,
            video_port: config.video_port,
            audio_port: config.audio_port,
        };
        let conn = BridgeConnection {
            state: ConnectionState::Connected,
            remote_addr,
            config,
            control_open: true,
            video_channel: Some(UdpChannel::bind(config.max_packet_size)),
            audio_channel: Some(UdpChannel::bind(config.max_packet_size)),
            input_channel: Some(UdpChannel::bind(config.max_packet_size)),
            video_config: Some(video_config),
            audio_config: Some(hello.audio_config),
        };
        (conn, ControlMessage::Welcome(welcome))
    }

    /// Accepts a client with the configuration that it asks for (server mode).
    pub fn accept(
        remote_addr: SocketAddress,
        config: TransportConfig,
        server_name: &str,
        hello: &HelloMessage,
    ) -> (r: (BridgeConnection, ControlMessage))
        ensures
            r.0 == accepted(remote_addr, config, hello@, hello@.video_config),
            r.1@ == ControlView::Welcome(
                welcome_view(config, server_name@, hello@, hello@.video_config),
            ),
    {
        BridgeConnection::accept_with_negotiation(
            remote_addr,
            config,
            server_name,
            hello,
            hello.video_config,
        )
    }

    /// The control channel can be used only while it is open.
    pub fn control(&self) -> (r: BridgeResult<()>)
        ensures
            match r {
                Ok(_) => self.control_open,
                Err(e) => !self.control_open && e is NotConnected,
            },
    {
        if self.control_open {
            Ok(())
        } else {
            Err(BridgeError::NotConnected)
        }
    }

    /// Disconnect from the remote peer. Gives the message to send on the control
    /// channel, where that is open.
    pub fn disconnect(&mut self) -> (r: Option<ControlMessage>)
        ensures
            *final(self) == (BridgeConnection {
                state: ConnectionState::Disconnected,
                control_open: false,
                video_channel: None,
                audio_channel: None,
                input_channel: None,
                ..*old(self)
            }),
            match r {
                Some(m) => old(self).control_open && m@ == ControlView::Disconnect,
                None => !old(self).control_open,
            },
    {
        let farewell = if self.control_open {
            Some(ControlMessage::Disconnect)
        } else {
            None
        };
        self.control_open = false;
        self.video_channel = None;
        self.audio_channel = None;
        self.input_channel = None;
        self.state = ConnectionState::Disconnected;
        farewell
    }
}

/// The video configuration that the server grants to a client.
pub fn negotiate_video(hello: &HelloMessage, is_thunderbolt: bool) -> (c: VideoConfig)
    ensures
        c == granted(hello@.video_config, is_thunderbolt),
{
    if is_thunderbolt {
        VideoConfig { codec: VideoCodec::Raw, ..hello.video_config }
    } else {
        hello.video_config
    }
}

/// A handshake leaves both ends connected, with the same configurations, the
/// client's video and audio channels on the ports that the server has bound.
pub proof fn law_handshake_agrees(
    client: BridgeConnection,
    server_config: TransportConfig,
    client_addr: SocketAddress,
    client_name: Seq<char>,
    server_name: Seq<char>,
    video_config: VideoConfig,
    audio_config: AudioConfig,
    is_thunderbolt: bool,
)
    ensures
        ({
            let hello = hello_view(client_name, video_config, audio_config);
            let video = granted(hello.video_config, is_thunderbolt);
            let server = accepted(client_addr, server_config, hello, video);
            let welcome = welcome_view(server_config, server_name, hello, video);
            let c = established(client, welcome);
            &&& server.state == ConnectionState::Connected
            &&& c.state == ConnectionState::Connected
            &&& c.video_config == server.video_config
            &&& c.audio_config == server.audio_config
            &&& c.audio_config == Some(audio_config)
            &&& c.video_config == Some(granted(video_config, is_thunderbolt))
            &&& c.video_channel->0.remote_addr == Some(
                at_port(client.remote_addr.ip, server_config.video_port),
            )
            &&& c.audio_channel->0.remote_addr == Some(
                at_port(client.remote_addr.ip, server_config.audio_port),
            )
        }),
{
}

/// A server grants what was asked for in every respect but one: over Thunderbolt,
/// and only there, the video is not compressed.
pub proof fn law_server_grants_what_is_asked(asked: VideoConfig, is_thunderbolt: bool)
    ensures
        ({
            let c = granted(asked, is_thunderbolt);
            &&& c.width == asked.width
            &&& c.height == asked.height
            &&& c.fps == asked.fps
            &&& c.bitrate == asked.bitrate
            &&& c.pixel_format == asked.pixel_format
            &&& is_thunderbolt ==> c.codec == VideoCodec::Raw
            &&& !is_thunderbolt ==> c.codec == asked.codec
        }),
{
}

/// The first message of a client says who it is and what it asks for, and names the
/// version of the protocol; the answer of a server names the ports that it has bound
/// and grants the sound that was asked for.
pub proof fn law_first_messages_say_what_is_meant(
    config: TransportConfig,
    client_name: Seq<char>,
    server_name: Seq<char>,
    asked: VideoConfig,
    sound: AudioConfig,
    granted_video: VideoConfig,
)
    ensures
        ({
            let h = hello_view(client_name, asked, sound);
            let w = welcome_view(config, server_name, h, granted_video);
            &&& h.client_name == client_name
            &&& h.protocol_version == 1
            &&& h.video_config == asked
            &&& h.audio_config == sound
            &&& w.server_name == server_name
            &&& w.video_config == granted_video
            &&& w.audio_config == sound
            &&& w.video_port == config.video_port
            &&& w.audio_port == config.audio_port
        }),
{
}

/// A client that was welcomed talks to the host that it connected to: video and
/// sound on the ports that the server named, input on its own configured port, each
/// on a fresh channel for packets of the configured size.
pub proof fn law_client_channels_lead_to_the_server(c: BridgeConnection, w: WelcomeView)
    ensures
        ({
            let e = established(c, w);
            &&& e.state == ConnectionState::Connected
            &&& e.control_open
            &&& e.remote_addr == c.remote_addr
            &&& e.config == c.config
            &&& e.video_config == Some(w.video_config)
            &&& e.audio_config == Some(w.audio_config)
            &&& e.video_channel is Some && e.audio_channel is Some && e.input_channel is Some
            &&& e.video_channel->0.remote_addr matches Some(a) && a.ip == c.remote_addr.ip && a.port
                == w.video_port
            &&& e.audio_channel->0.remote_addr matches Some(a) && a.ip == c.remote_addr.ip && a.port
                == w.audio_port
            &&& e.input_channel->0.remote_addr matches Some(a) && a.ip == c.remote_addr.ip && a.port
                == c.config.input_port
            &&& e.video_channel->0.max_packet_size == c.config.max_packet_size
            &&& e.audio_channel->0.max_packet_size == c.config.max_packet_size
            &&& e.input_channel->0.max_packet_size == c.config.max_packet_size
            &&& e.video_channel->0.send_sequence == 0 && e.audio_channel->0.send_sequence == 0
                && e.input_channel->0.send_sequence == 0
        }),
{
}

/// A server that has accepted a client waits for it on three fresh channels, knows
/// where the client is, and keeps to what it granted.
pub proof fn law_server_channels_wait_for_the_client(
    remote_addr: SocketAddress,
    config: TransportConfig,
    hello: HelloView,
    video_config: VideoConfig,
)
    ensures
        ({
            let s = accepted(remote_addr, config, hello, video_config);
            let fresh = UdpChannel {
                remote_addr: None,
                max_packet_size: config.max_packet_size,
                send_sequence: 0,
            };
            &&& s.state == ConnectionState::Connected
            &&& s.control_open
            &&& s.remote_addr == remote_addr
            &&& s.config == config
            &&& s.video_channel == Some(fresh)
            &&& s.audio_channel == Some(fresh)
            &&& s.input_channel == Some(fresh)
            &&& s.video_config == Some(video_config)
            &&& s.audio_config == Some(hello.audio_config)
        }),
{
}

/// The address of a host with a port has that host and that port, and nothing else.
pub proof fn law_address_has_its_host_and_port(ip: IpAddress, port: u16)
    ensures
        at_port(ip, port).ip == ip,
        at_port(ip, port).port == port,
        at_port(ip, port).flow_info == 0,
        at_port(ip, port).scope_id == 0,
{
}

} // verus!
