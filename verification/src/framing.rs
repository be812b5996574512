//! Messages and frames on a byte stream: each behind its length in four bytes.
use crate::bytes::{
    be_bytes, be_value, le_bytes, le_value, lemma_be_round_trip, lemma_le_bytes_len,
    lemma_le_round_trip, lemma_pow256_widths, u32_be, u32_from_be, u32_from_le, u32_le,
};
use crate::control::ControlView;
use crate::error::{BridgeError, BridgeResult};
use crate::net::{IpAddress, SocketAddress};
use crate::protocol::ControlMessage;
use crate::udp::{is_protocol_error, is_wire_error};
use vstd::prelude::*;
use vstd::string::StringExecFns;

verus! {

broadcast use lemma_le_bytes_len;

/// Longest control message that is received: 1 MiB.
pub const MAX_CONTROL_MESSAGE: usize = 1024 * 1024;

/// Longest video frame that is received over TCP: 64 MiB.
pub const MAX_TCP_FRAME: usize = 64 * 1024 * 1024;

/// A complete frame to send over TCP (header bytes and payload already
/// concatenated).
#[derive(Debug, Clone)]
pub struct TcpVideoFrame {
    pub data: Vec<u8>,
}

/// A control message as it goes over the control stream.
pub open spec fn control_frame_bytes(m: ControlView) -> Seq<u8> {
    be_bytes((m.encoding().len() as u32) as nat, 4) + m.encoding()
}

/// Writes a control message for the control stream: its length, most
/// significant byte first, then its bytes.
pub fn control_frame(msg: &ControlMessage) -> (r: BridgeResult<Vec<u8>>)
    ensures
        r matches Ok(v) && v@ == control_frame_bytes(msg@),
{
    match msg.to_bytes() {
        Ok(mut data) => {
            let mut out = u32_be(data.len() as u32);
            out.append(&mut data);
            Ok(out)
        },
        Err(e) => Err(e.into_bridge_error()),
    }
}

/// The number of bytes that follow a length prefix on the control stream.
pub fn control_frame_len(prefix: [u8; 4]) -> (r: BridgeResult<usize>)
    ensures
        match r {
            Ok(n) => n == be_value(prefix@) && n <= MAX_CONTROL_MESSAGE,
            Err(e) => be_value(prefix@) > MAX_CONTROL_MESSAGE && is_protocol_error(
                e,
                "Message too large"@,
            ),
        },
{
    let n: usize = u32_from_be(prefix) as usize;
    if n > MAX_CONTROL_MESSAGE {
        Err(BridgeError::Protocol(String::from_str("Message too large")))
    } else {
        Ok(n)
    }
}

/// Reads the control message in the bytes that followed a length prefix.
pub fn parse_control(data: &[u8]) -> (r: BridgeResult<ControlMessage>)
    ensures
        match r {
            Ok(m) => ControlView::read_error(data@) is None && m@.encoding().is_prefix_of(data@),
            Err(e) => ControlView::read_error(data@) is Some && is_wire_error(
                e,
                ControlView::read_error(data@)->0,
            ),
        },
{
    match ControlMessage::from_bytes(data) {
        Ok(m) => Ok(m),
        Err(e) => Err(e.into_bridge_error()),
    }
}

/// A control message that is short enough is received as it was sent: the
/// prefix announces exactly the bytes that follow, and they are accepted.
pub proof fn law_control_frame_reads_back(m: ControlView)
    requires
        m.fits(),
        m.encoding().len() <= MAX_CONTROL_MESSAGE,
    ensures
        ({
            let f = control_frame_bytes(m);
            &&& f.len() == 4 + m.encoding().len()
            &&& be_value(f.take(4)) == m.encoding().len()
            &&& f.skip(4) == m.encoding()
            &&& ControlView::read_error(f.skip(4)) is None
        }),
{
    let f = control_frame_bytes(m);
    let n = m.encoding().len();
    lemma_pow256_widths();
    lemma_be_round_trip(n, 4);
    assert(f.take(4) =~= be_bytes(n, 4));
    assert(f.skip(4) =~= m.encoding());
    crate::control::law_control_message_reads_back(m, Seq::empty());
    assert(m.encoding() + Seq::<u8>::empty() =~= m.encoding());
}

/// A video frame as it goes over TCP.
pub open spec fn tcp_frame_bytes(data: Seq<u8>) -> Seq<u8> {
    le_bytes((data.len() as u32) as nat, 4) + data
}

impl TcpVideoFrame {
    /// Writes the frame for the stream: its length, least significant byte
    /// first, then its bytes.
    pub fn to_stream(&self) -> (v: Vec<u8>)
        ensures
            v@ == tcp_frame_bytes(self.data@),
    {
        let mut out = u32_le(self.data.len() as u32);
        out.extend_from_slice(self.data.as_slice());
        assert(out@ =~= tcp_frame_bytes(self.data@));
        out
    }
}

/// The number of bytes that follow a length prefix on the TCP stream, or nothing
/// where the frame is too large and the stream is given up.
pub fn tcp_frame_len(prefix: [u8; 4]) -> (r: Option<usize>)
    ensures
        r == (if le_value(prefix@) <= MAX_TCP_FRAME {
            Some(le_value(prefix@) as usize)
        } else {
            None
        }),
{
    let n: usize = u32_from_le(prefix) as usize;
    if n > MAX_TCP_FRAME {
        None
    } else {
        Some(n)
    }
}

/// A frame that is short enough is received over TCP as it was sent.
pub proof fn law_tcp_frame_reads_back(data: Seq<u8>)
    requires
        data.len() <= MAX_TCP_FRAME,
    ensures
        ({
            let f = tcp_frame_bytes(data);
            &&& f.len() == 4 + data.len()
            &&& le_value(f.take(4)) == data.len()
            &&& f.skip(4) == data
        }),
{
    let f = tcp_frame_bytes(data);
    lemma_pow256_widths();
    lemma_le_round_trip(data.len(), 4);
    assert(f.take(4) =~= le_bytes(data.len(), 4));
    assert(f.skip(4) =~= data);
}

/// Tells whether a peer may receive video: only the one address may.
pub fn is_allowed_peer(peer: &SocketAddress, allowed_ip: &IpAddress) -> (b: bool)
    ensures
        b == (peer.ip == *allowed_ip),
{
    peer.ip == *allowed_ip
}

/// The longest messages that are received.
pub proof fn law_framing_limits()
    ensures
        MAX_CONTROL_MESSAGE == 0x10_0000,
        MAX_TCP_FRAME == 64 * MAX_CONTROL_MESSAGE,
{
}

} // verus!
