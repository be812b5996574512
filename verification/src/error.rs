//! The errors of the library and their messages.
use crate::text::{decimal, format_i32, format_u64, signed_decimal};
use vstd::prelude::*;
use vstd::string::StringExecFns;

verus! {

/// Main error type for Bridge operations.
#[derive(Debug)]
pub enum BridgeError {
    Connection(String),
    Protocol(String),
    Video(String),
    Audio(String),
    Input(String),
    Transport(String),
    Config(String),
    Timeout,
    NotConnected,
    PermissionDenied(String),
    MacOS(String),
    Io(String),
    Serialization(String),
}

/// Result type alias for Bridge operations.
pub type BridgeResult<T> = Result<T, BridgeError>;

/// Video-specific errors.
#[derive(Debug)]
pub enum VideoError {
    CaptureNotAvailable,
    PermissionRequired,
    Encoder(String),
    Decoder(String),
    Frame(String),
    Display(String),
    Metal(String),
    VideoToolbox(i32),
}

/// Audio-specific errors.
#[derive(Debug)]
pub enum AudioError {
    DeviceNotFound,
    Capture(String),
    Playback(String),
    CoreAudio(i32),
}

/// Input-specific errors.
#[derive(Debug)]
pub enum InputError {
    AccessibilityRequired,
    HidDevice(String),
    EventTap(String),
    VirtualDevice(String),
    IOKit(i32),
}

/// Transport-specific errors.
#[derive(Debug)]
pub enum TransportError {
    ConnectionFailed(String),
    ConnectionLost,
    HandshakeFailed(String),
    Send(String),
    Receive(String),
    InvalidPacket,
    Timeout,
}

/// Why a byte sequence is no encoding of the value that was read from it.
#[derive(Debug, Clone, Copy, PartialEq, Eq, Structural)]
pub enum WireError {
    /// The bytes end before the value does.
    UnexpectedEnd,
    /// A boolean is encoded by this byte, which is neither 0 nor 1.
    InvalidBool(u8),
    /// The bytes end before a string does whose length could be read.
    StringCutShort,
    /// A string's bytes are not UTF-8.
    InvalidUtf8 {
        /// Number of bytes up to which they are.
        valid_up_to: usize,
        /// Length of what is wrong there; nothing where the bytes end too early.
        error_len: Option<usize>,
    },
    /// An enumeration has no variant of this index: it has only so many.
    InvalidVariant(u32, u32),
    /// A length does not fit in memory.
    InvalidSize(u64),
}

/// `prefix` followed by `detail`.
fn prefixed(prefix: &str, detail: &str) -> (s: String)
    ensures
        s@ == prefix@ + detail@,
{
    let mut s = String::from_str(prefix);
    s.append(detail);
    s
}

impl BridgeError {
    /// The message of the error.
    pub open spec fn text(self) -> Seq<char> {
        match self {
            BridgeError::Connection(m) => "Connection error: "@ + m@,
            BridgeError::Protocol(m) => "Protocol error: "@ + m@,
            BridgeError::Video(m) => "Video error: "@ + m@,
            BridgeError::Audio(m) => "Audio error: "@ + m@,
            BridgeError::Input(m) => "Input error: "@ + m@,
            BridgeError::Transport(m) => "Transport error: "@ + m@,
            BridgeError::Config(m) => "Configuration error: "@ + m@,
            BridgeError::Timeout => "Timeout"@,
            BridgeError::NotConnected => "Not connected"@,
            BridgeError::PermissionDenied(m) => "Permission denied: "@ + m@,
            BridgeError::MacOS(m) => "macOS error: "@ + m@,
            BridgeError::Io(m) => "IO error: "@ + m@,
            BridgeError::Serialization(m) => "Serialization error: "@ + m@,
        }
    }

    /// Writes the error out for a reader.
    pub fn message(&self) -> (s: String)
        ensures
            s@ == self.text(),
    {
        match self {
            BridgeError::Connection(m) => prefixed("Connection error: ", m.as_str()),
            BridgeError::Protocol(m) => prefixed("Protocol error: ", m.as_str()),
            BridgeError::Video(m) => prefixed("Video error: ", m.as_str()),
            BridgeError::Audio(m) => prefixed("Audio error: ", m.as_str()),
            BridgeError::Input(m) => prefixed("Input error: ", m.as_str()),
            BridgeError::Transport(m) => prefixed("Transport error: ", m.as_str()),
            BridgeError::Config(m) => prefixed("Configuration error: ", m.as_str()),
            BridgeError::Timeout => String::from_str("Timeout"),
            BridgeError::NotConnected => String::from_str("Not connected"),
            BridgeError::PermissionDenied(m) => prefixed("Permission denied: ", m.as_str()),
            BridgeError::MacOS(m) => prefixed("macOS error: ", m.as_str()),
            BridgeError::Io(m) => prefixed("IO error: ", m.as_str()),
            BridgeError::Serialization(m) => prefixed("Serialization error: ", m.as_str()),
        }
    }
}

impl VideoError {
    /// The message of the error.
    pub open spec fn text(self) -> Seq<char> {
        match self {
            VideoError::CaptureNotAvailable => "Screen capture not available"@,
            VideoError::PermissionRequired => "Screen recording permission required"@,
            VideoError::Encoder(m) => "Encoder error: "@ + m@,
            VideoError::Decoder(m) => "Decoder error: "@ + m@,
            VideoError::Frame(m) => "Frame error: "@ + m@,
            VideoError::Display(m) => "Display error: "@ + m@,
            VideoError::Metal(m) => "Metal error: "@ + m@,
            VideoError::VideoToolbox(c) => "VideoToolbox error: code "@ + signed_decimal(c as int),
        }
    }

    /// Writes the error out for a reader.
    pub fn message(&self) -> (s: String)
        ensures
            s@ == self.text(),
    {
        match self {
            VideoError::CaptureNotAvailable => String::from_str("Screen capture not available"),
            VideoError::PermissionRequired => String::from_str(
                "Screen recording permission required",
            ),
            VideoError::Encoder(m) => prefixed("Encoder error: ", m.as_str()),
            VideoError::Decoder(m) => prefixed("Decoder error: ", m.as_str()),
            VideoError::Frame(m) => prefixed("Frame error: ", m.as_str()),
            VideoError::Display(m) => prefixed("Display error: ", m.as_str()),
            VideoError::Metal(m) => prefixed("Metal error: ", m.as_str()),
            VideoError::VideoToolbox(c) => {
                let code = format_i32(*c);
                prefixed("VideoToolbox error: code ", code.as_str())
            },
        }
    }
}

impl AudioError {
    /// The message of the error.
    pub open spec fn text(self) -> Seq<char> {
        match self {
            AudioError::DeviceNotFound => "Audio device not found"@,
            AudioError::Capture(m) => "Audio capture error: "@ + m@,
            AudioError::Playback(m) => "Audio playback error: "@ + m@,
            AudioError::CoreAudio(c) => "CoreAudio error: code "@ + signed_decimal(c as int),
        }
    }

    /// Writes the error out for a reader.
    pub fn message(&self) -> (s: String)
        ensures
            s@ == self.text(),
    {
        match self {
            AudioError::DeviceNotFound => String::from_str("Audio device not found"),
            AudioError::Capture(m) => prefixed("Audio capture error: ", m.as_str()),
            AudioError::Playback(m) => prefixed("Audio playback error: ", m.as_str()),
            AudioError::CoreAudio(c) => {
                let code = format_i32(*c);
                prefixed("CoreAudio error: code ", code.as_str())
            },
        }
    }
}

impl InputError {
    /// The message of the error.
    pub open spec fn text(self) -> Seq<char> {
        match self {
            InputError::AccessibilityRequired => "Accessibility permission required"@,
            InputError::HidDevice(m) => "HID device error: "@ + m@,
            InputError::EventTap(m) => "Event tap error: "@ + m@,
            InputError::VirtualDevice(m) => "Virtual device error: "@ + m@,
            InputError::IOKit(c) => "IOKit error: code "@ + signed_decimal(c as int),
        }
    }

    /// Writes the error out for a reader.
    pub fn message(&self) -> (s: String)
        ensures
            s@ == self.text(),
    {
        match self {
            InputError::AccessibilityRequired => String::from_str(
                "Accessibility permission required",
            ),
            InputError::HidDevice(m) => prefixed("HID device error: ", m.as_str()),
            InputError::EventTap(m) => prefixed("Event tap error: ", m.as_str()),
            InputError::VirtualDevice(m) => prefixed("Virtual device error: ", m.as_str()),
            InputError::IOKit(c) => {
                let code = format_i32(*c);
                prefixed("IOKit error: code ", code.as_str())
            },
        }
    }
}

impl TransportError {
    /// The message of the error.
    pub open spec fn text(self) -> Seq<char> {
        match self {
            TransportError::ConnectionFailed(m) => "Connection failed: "@ + m@,
            TransportError::ConnectionLost => "Connection lost"@,
            TransportError::HandshakeFailed(m) => "Handshake failed: "@ + m@,
            TransportError::Send(m) => "Send error: "@ + m@,
            TransportError::Receive(m) => "Receive error: "@ + m@,
            TransportError::InvalidPacket => "Invalid packet"@,
            TransportError::Timeout => "Timeout"@,
        }
    }

    /// Writes the error out for a reader.
    pub fn message(&self) -> (s: String)
        ensures
            s@ == self.text(),
    {
        match self {
            TransportError::ConnectionFailed(m) => prefixed("Connection failed: ", m.as_str()),
            TransportError::ConnectionLost => String::from_str("Connection lost"),
            TransportError::HandshakeFailed(m) => prefixed("Handshake failed: ", m.as_str()),
            TransportError::Send(m) => prefixed("Send error: ", m.as_str()),
            TransportError::Receive(m) => prefixed("Receive error: ", m.as_str()),
            TransportError::InvalidPacket => String::from_str("Invalid packet"),
            TransportError::Timeout => String::from_str("Timeout"),
        }
    }
}

impl WireError {
    /// The message of the error.
    pub open spec fn text(self) -> Seq<char> {
        match self {
            WireError::UnexpectedEnd => "io error: unexpected end of file"@,
            WireError::InvalidBool(b) => "invalid u8 while decoding bool, expected 0 or 1, found "@
                + decimal(b as nat),
            WireError::StringCutShort => "io error: "@,
            WireError::InvalidUtf8 { valid_up_to, error_len } => match error_len {
                Some(n) => "string is not valid utf8: invalid utf-8 sequence of "@ + decimal(
                    n as nat,
                ) + " bytes from index "@ + decimal(valid_up_to as nat),
                None => "string is not valid utf8: incomplete utf-8 byte sequence from index "@
                    + decimal(valid_up_to as nat),
            },
            WireError::InvalidVariant(i, count) => "invalid value: integer `"@ + decimal(i as nat)
                + "`, expected variant index 0 <= i < "@ + decimal(count as nat),
            WireError::InvalidSize(n) => "Invalid size "@ + decimal(n as nat)
                + ": sizes must fit in a usize (0 to "@ + decimal(usize::MAX as nat) + ")"@,
        }
    }

    /// Writes the error out for a reader.
    pub fn message(&self) -> (s: String)
        ensures
            s@ == self.text(),
    {
        match self {
            WireError::UnexpectedEnd => String::from_str("io error: unexpected end of file"),
            WireError::InvalidBool(b) => {
                let byte = format_u64(*b as u64);
                prefixed("invalid u8 while decoding bool, expected 0 or 1, found ", byte.as_str())
            },
            WireError::StringCutShort => String::from_str("io error: "),
            WireError::InvalidUtf8 { valid_up_to, error_len } => {
                let index = format_u64(*valid_up_to as u64);
                match error_len {
                    Some(n) => {
                        let len = format_u64(*n as u64);
                        let mut s = prefixed(
                            "string is not valid utf8: invalid utf-8 sequence of ",
                            len.as_str(),
                        );
                        s.append(" bytes from index ");
                        s.append(index.as_str());
                        s
                    },
                    None => prefixed(
                        "string is not valid utf8: incomplete utf-8 byte sequence from index ",
                        index.as_str(),
                    ),
                }
            },
            WireError::InvalidVariant(i, count) => {
                let index = format_u64(*i as u64);
                let count = format_u64(*count as u64);
                let mut s = prefixed("invalid value: integer `", index.as_str());
                s.append("`, expected variant index 0 <= i < ");
                s.append(count.as_str());
                s
            },
            WireError::InvalidSize(n) => {
                let size = format_u64(*n);
                let max = format_u64(usize::MAX as u64);
                let mut s = prefixed("Invalid size ", size.as_str());
                s.append(": sizes must fit in a usize (0 to ");
                s.append(max.as_str());
                s.append(")");
                s
            },
        }
    }

    /// The library's general error for a value that could not be read.
    pub fn into_bridge_error(self) -> (e: BridgeError)
        ensures
            e matches BridgeError::Serialization(m) && m@ == self.text(),
    {
        BridgeError::Serialization(self.message())
    }
}

/// The message of an error ends with the detail that it was made with.
pub proof fn law_messages_keep_their_detail(e: BridgeError)
    ensures
        e matches BridgeError::Connection(m) ==> e.text().skip(e.text().len() - m@.len()) == m@,
        e matches BridgeError::Protocol(m) ==> e.text().skip(e.text().len() - m@.len()) == m@,
        e matches BridgeError::Video(m) ==> e.text().skip(e.text().len() - m@.len()) == m@,
        e matches BridgeError::Audio(m) ==> e.text().skip(e.text().len() - m@.len()) == m@,
        e matches BridgeError::Input(m) ==> e.text().skip(e.text().len() - m@.len()) == m@,
        e matches BridgeError::Transport(m) ==> e.text().skip(e.text().len() - m@.len()) == m@,
        e matches BridgeError::Config(m) ==> e.text().skip(e.text().len() - m@.len()) == m@,
        e matches BridgeError::PermissionDenied(m) ==> e.text().skip(e.text().len() - m@.len()) == m@,
        e matches BridgeError::MacOS(m) ==> e.text().skip(e.text().len() - m@.len()) == m@,
        e matches BridgeError::Io(m) ==> e.text().skip(e.text().len() - m@.len()) == m@,
        e matches BridgeError::Serialization(m) ==> e.text().skip(e.text().len() - m@.len()) == m@,
{
    match e {
        BridgeError::Connection(m) => {
            let p = "Connection error: "@;
            assert((p + m@).skip(p.len() as int) =~= m@);
        },
        BridgeError::Protocol(m) => {
            let p = "Protocol error: "@;
            assert((p + m@).skip(p.len() as int) =~= m@);
        },
        BridgeError::Video(m) => {
            let p = "Video error: "@;
            assert((p + m@).skip(p.len() as int) =~= m@);
        },
        BridgeError::Audio(m) => {
            let p = "Audio error: "@;
            assert((p + m@).skip(p.len() as int) =~= m@);
        },
        BridgeError::Input(m) => {
            let p = "Input error: "@;
            assert((p + m@).skip(p.len() as int) =~= m@);
        },
        BridgeError::Transport(m) => {
            let p = "Transport error: "@;
            assert((p + m@).skip(p.len() as int) =~= m@);
        },
        BridgeError::Config(m) => {
            let p = "Configuration error: "@;
            assert((p + m@).skip(p.len() as int) =~= m@);
        },
        BridgeError::PermissionDenied(m) => {
            let p = "Permission denied: "@;
            assert((p + m@).skip(p.len() as int) =~= m@);
        },
        BridgeError::MacOS(m) => {
            let p = "macOS error: "@;
            assert((p + m@).skip(p.len() as int) =~= m@);
        },
        BridgeError::Io(m) => {
            let p = "IO error: "@;
            assert((p + m@).skip(p.len() as int) =~= m@);
        },
        BridgeError::Serialization(m) => {
            let p = "Serialization error: "@;
            assert((p + m@).skip(p.len() as int) =~= m@);
        },
        _ => {},
    }
}

/// The message of an error ends with the detail that it was made with.
pub proof fn law_video_messages_keep_their_detail(e: VideoError)
    ensures
        e matches VideoError::Encoder(m) ==> e.text().skip(e.text().len() - m@.len()) == m@,
        e matches VideoError::Decoder(m) ==> e.text().skip(e.text().len() - m@.len()) == m@,
        e matches VideoError::Frame(m) ==> e.text().skip(e.text().len() - m@.len()) == m@,
        e matches VideoError::Display(m) ==> e.text().skip(e.text().len() - m@.len()) == m@,
        e matches VideoError::Metal(m) ==> e.text().skip(e.text().len() - m@.len()) == m@,
{
    match e {
        VideoError::Encoder(m) => {
            let p = "Encoder error: "@;
            assert((p + m@).skip(p.len() as int) =~= m@);
        },
        VideoError::Decoder(m) => {
            let p = "Decoder error: "@;
            assert((p + m@).skip(p.len() as int) =~= m@);
        },
        VideoError::Frame(m) => {
            let p = "Frame error: "@;
            assert((p + m@).skip(p.len() as int) =~= m@);
        },
        VideoError::Display(m) => {
            let p = "Display error: "@;
            assert((p + m@).skip(p.len() as int) =~= m@);
        },
        VideoError::Metal(m) => {
            let p = "Metal error: "@;
            assert((p + m@).skip(p.len() as int) =~= m@);
        },
        _ => {},
    }
}

/// The message of an error ends with the detail that it was made with.
pub proof fn law_audio_messages_keep_their_detail(e: AudioError)
    ensures
        e matches AudioError::Capture(m) ==> e.text().skip(e.text().len() - m@.len()) == m@,
        e matches AudioError::Playback(m) ==> e.text().skip(e.text().len() - m@.len()) == m@,
{
    match e {
        AudioError::Capture(m) => {
            let p = "Audio capture error: "@;
            assert((p + m@).skip(p.len() as int) =~= m@);
        },
        AudioError::Playback(m) => {
            let p = "Audio playback error: "@;
            assert((p + m@).skip(p.len() as int) =~= m@);
        },
        _ => {},
    }
}

/// The message of an error ends with the detail that it was made with.
pub proof fn law_input_messages_keep_their_detail(e: InputError)
    ensures
        e matches InputError::HidDevice(m) ==> e.text().skip(e.text().len() - m@.len()) == m@,
        e matches InputError::EventTap(m) ==> e.text().skip(e.text().len() - m@.len()) == m@,
        e matches InputError::VirtualDevice(m) ==> e.text().skip(e.text().len() - m@.len()) == m@,
{
    match e {
        InputError::HidDevice(m) => {
            let p = "HID device error: "@;
            assert((p + m@).skip(p.len() as int) =~= m@);
        },
        InputError::EventTap(m) => {
            let p = "Event tap error: "@;
            assert((p + m@).skip(p.len() as int) =~= m@);
        },
        InputError::VirtualDevice(m) => {
            let p = "Virtual device error: "@;
            assert((p + m@).skip(p.len() as int) =~= m@);
        },
        _ => {},
    }
}

/// The message of an error ends with the detail that it was made with.
pub proof fn law_transport_messages_keep_their_detail(e: TransportError)
    ensures
        e matches TransportError::ConnectionFailed(m) ==> e.text().skip(e.text().len() - m@.len()) == m@,
        e matches TransportError::HandshakeFailed(m) ==> e.text().skip(e.text().len() - m@.len()) == m@,
        e matches TransportError::Send(m) ==> e.text().skip(e.text().len() - m@.len()) == m@,
        e matches TransportError::Receive(m) ==> e.text().skip(e.text().len() - m@.len()) == m@,
{
    match e {
        TransportError::ConnectionFailed(m) => {
            let p = "Connection failed: "@;
            assert((p + m@).skip(p.len() as int) =~= m@);
        },
        TransportError::HandshakeFailed(m) => {
            let p = "Handshake failed: "@;
            assert((p + m@).skip(p.len() as int) =~= m@);
        },
        TransportError::Send(m) => {
            let p = "Send error: "@;
            assert((p + m@).skip(p.len() as int) =~= m@);
        },
        TransportError::Receive(m) => {
            let p = "Receive error: "@;
            assert((p + m@).skip(p.len() as int) =~= m@);
        },
        _ => {},
    }
}

/// The message of an error that has a number ends with that number.
pub proof fn law_messages_give_their_number(v: i32, b: u8)
    ensures
        ({
            let n = signed_decimal(v as int);
            let (x, y, z) = (
                VideoError::VideoToolbox(v).text(),
                AudioError::CoreAudio(v).text(),
                InputError::IOKit(v).text(),
            );
            &&& x.skip(x.len() - n.len()) == n
            &&& y.skip(y.len() - n.len()) == n
            &&& z.skip(z.len() - n.len()) == n
        }),
        ({
            let t = WireError::InvalidBool(b).text();
            t.skip(t.len() - decimal(b as nat).len()) == decimal(b as nat)
        }),
{
    let n = signed_decimal(v as int);
    let p = "VideoToolbox error: code "@;
    let q = "CoreAudio error: code "@;
    let r = "IOKit error: code "@;
    let s = "invalid u8 while decoding bool, expected 0 or 1, found "@;
    assert((p + n).skip(p.len() as int) =~= n);
    assert((q + n).skip(q.len() as int) =~= n);
    assert((r + n).skip(r.len() as int) =~= n);
    assert((s + decimal(b as nat)).skip(s.len() as int) =~= decimal(b as nat));
}

} // verus!
