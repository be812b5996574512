//! Virtual displays for machines without a screen.
use crate::error::{BridgeError, BridgeResult};
use crate::text::{
    decimal, format_u64, law_written_numbers_read_as_themselves, number_read,
};
use vstd::prelude::*;
use vstd::string::StringExecFns;

verus! {

/// Number of the X display that a virtual display takes.
pub const DISPLAY_NUMBER: u32 = 99;

/// Vendor of a virtual display; a display without one is rejected.
pub const VENDOR_ID: u32 = 505;

/// How often the system is asked whether a new display is there.
pub const READY_ATTEMPTS: u32 = 20;

/// A virtual display on Linux, served by Xvfb.
#[derive(Debug, Clone, Copy, PartialEq, Eq, Structural)]
pub struct VirtualDisplay {
    pub display_num: u32,
    pub width: u32,
    pub height: u32,
}

/// The name of an X display.
pub open spec fn display_text(n: u32) -> Seq<char> {
    ":"@ + decimal(n as nat)
}

/// The mode of a screen: width, height and depth.
pub open spec fn screen_text(width: u32, height: u32) -> Seq<char> {
    decimal(width as nat) + "x"@ + decimal(height as nat) + "x24"@
}

impl VirtualDisplay {
    /// A virtual display of the given size. The refresh rate makes no difference.
    pub fn new(width: u32, height: u32, refresh_rate: u32) -> (d: Self)
        ensures
            d == (VirtualDisplay { display_num: DISPLAY_NUMBER, width, height }),
    {
        let _ = refresh_rate;
        VirtualDisplay { display_num: DISPLAY_NUMBER, width, height }
    }

    /// The name of the display, by which programs find it.
    pub fn display_name(&self) -> (s: String)
        ensures
            s@ == display_text(self.display_num),
    {
        let mut s = String::from_str(":");
        let number = format_u64(self.display_num as u64);
        s.append(number.as_str());
        s
    }

    /// The arguments of the server: its display, one screen, and no access
    /// control.
    pub fn server_arguments(&self) -> (v: Vec<String>)
        ensures
            v@.len() == 5,
            v@[0]@ == display_text(self.display_num),
            v@[1]@ == "-screen"@,
            v@[2]@ == "0"@,
            v@[3]@ == screen_text(self.width, self.height),
            v@[4]@ == "-ac"@,
    {
        let mut mode = format_u64(self.width as u64);
        mode.append("x");
        let height = format_u64(self.height as u64);
        mode.append(height.as_str());
        mode.append("x24");
        let mut v: Vec<String> = Vec::new();
        v.push(self.display_name());
        v.push(String::from_str("-screen"));
        v.push(String::from_str("0"));
        v.push(mode);
        v.push(String::from_str("-ac"));
        v
    }

    /// Return the X display number.
    pub fn display_id(&self) -> (n: u32)
        ensures
            n == self.display_num,
    {
        self.display_num
    }

    /// Return the configured display width in pixels.
    pub fn width(&self) -> (n: u32)
        ensures
            n == self.width,
    {
        self.width
    }

    /// Return the configured display height in pixels.
    pub fn height(&self) -> (n: u32)
        ensures
            n == self.height,
    {
        self.height
    }
}

/// What the system is told of a virtual display.
#[derive(Debug, Clone, Copy, PartialEq, Eq, Structural)]
pub struct DisplayDescriptor {
    pub max_pixels_wide: u32,
    pub max_pixels_high: u32,
    pub vendor_id: u32,
    pub product_id: u32,
    pub serial: u32,
    /// Whether the system scales the picture. It does not, so that every pixel is
    /// captured as it is drawn.
    pub hi_dpi: bool,
    pub mode_width: u32,
    pub mode_height: u32,
    pub refresh_rate: u32,
}

/// Describes a virtual display of exactly the given size. Each gets a serial
/// number of its own.
pub fn describe_display(width: u32, height: u32, refresh_rate: u32, next_serial: &mut u32) -> (d:
    DisplayDescriptor)
    ensures
        d == (DisplayDescriptor {
            max_pixels_wide: width,
            max_pixels_high: height,
            vendor_id: VENDOR_ID,
            product_id: 0,
            serial: *old(next_serial),
            hi_dpi: false,
            mode_width: width,
            mode_height: height,
            refresh_rate,
        }),
        *final(next_serial) == (if *old(next_serial) == u32::MAX {
            0
        } else {
            (*old(next_serial) + 1) as u32
        }),
{
    let serial: u32 = *next_serial;
    *next_serial = next_serial.wrapping_add(1);
    DisplayDescriptor {
        max_pixels_wide: width,
        max_pixels_high: height,
        vendor_id: VENDOR_ID,
        product_id: 0,
        serial,
        hi_dpi: false,
        mode_width: width,
        mode_height: height,
        refresh_rate,
    }
}

/// A display that the system has made has a number other than 0.
pub fn check_display(created: Option<u32>) -> (r: BridgeResult<u32>)
    ensures
        match r {
            Ok(id) => created == Some(id) && id != 0,
            Err(BridgeError::Video(m)) => {
                ||| created is None && m@
                    == "CGVirtualDisplay initWithDescriptor returned nil. This can happen if: (1) running from SSH instead of GUI session, (2) macOS rejected the descriptor fields, or (3) WindowServer is in degraded headless mode. Try running from a GUI terminal or as a LaunchAgent."@
                ||| created == Some(0u32) && m@
                    == "CGVirtualDisplay returned displayID=0 (invalid)"@
            },
            Err(_) => false,
        },
{
    match created {
        None => Err(
            BridgeError::Video(
                String::from_str(
                    "CGVirtualDisplay initWithDescriptor returned nil. This can happen if: (1) running from SSH instead of GUI session, (2) macOS rejected the descriptor fields, or (3) WindowServer is in degraded headless mode. Try running from a GUI terminal or as a LaunchAgent.",
                ),
            ),
        ),
        Some(0) => Err(
            BridgeError::Video(
                String::from_str("CGVirtualDisplay returned displayID=0 (invalid)"),
            ),
        ),
        Some(id) => Ok(id),
    }
}

/// Whether to go on waiting for a display: it shows no pixels yet, and was not
/// asked too often.
pub fn keep_waiting(attempts_made: u32, pixels_wide: usize, pixels_high: usize) -> (b: bool)
    ensures
        b == (attempts_made < READY_ATTEMPTS && (pixels_wide == 0 || pixels_high == 0)),
{
    attempts_made < READY_ATTEMPTS && (pixels_wide == 0 || pixels_high == 0)
}

/// Whether `k` is the place of the widest mode, the first of those as wide.
pub open spec fn is_widest(widths: Seq<usize>, k: int) -> bool {
    &&& 0 <= k < widths.len()
    &&& forall|j: int| 0 <= j < widths.len() ==> widths[k] >= #[trigger] widths[j]
    &&& forall|j: int| 0 <= j < k ==> widths[k] > #[trigger] widths[j]
}

/// The mode to switch a display to, given how many pixels wide each is: the
/// widest, where it is wider than the current one.
pub fn best_mode(widths: &[usize], current: usize) -> (r: Option<usize>)
    ensures
        match r {
            Some(k) => is_widest(widths@, k as int) && widths@[k as int] > current,
            None => forall|j: int| 0 <= j < widths@.len() ==> #[trigger] widths@[j] <= current,
        },
{
    let mut best: Option<usize> = None;
    let mut best_width: usize = 0;
    let mut i: usize = 0;
    while i < widths.len()
        invariant
            i <= widths@.len(),
            forall|j: int| 0 <= j < i ==> best_width >= #[trigger] widths@[j],
            match best {
                Some(k) => k < i && widths@[k as int] == best_width && forall|j: int|
                    0 <= j < k ==> best_width > #[trigger] widths@[j],
                None => best_width == 0,
            },
        decreases widths@.len() - i,
    {
        if widths[i] > best_width {
            best_width = widths[i];
            best = Some(i);
        }
        i += 1;
    }
    match best {
        Some(k) => if best_width > current {
            Some(k)
        } else {
            None
        },
        None => None,
    }
}

/// A display is named by a colon and its number; a screen mode gives width, height and
/// 24 bits, each behind an `x`.
pub proof fn law_names_give_numbers_and_sizes(n: u32, width: u32, height: u32)
    ensures
        display_text(n)[0] == ':',
        number_read(display_text(n).skip(1)) == n,
        ({
            let w = decimal(width as nat).len() as int;
            let h = decimal(height as nat).len() as int;
            let t = screen_text(width, height);
            &&& t.len() == w + 1 + h + 3
            &&& number_read(t.take(w)) == width
            &&& t[w] == 'x'
            &&& number_read(t.subrange(w + 1, w + 1 + h)) == height
            &&& t.skip(w + 1 + h) == seq!['x', '2', '4']
        }),
{
    law_written_numbers_read_as_themselves(n as nat);
    law_written_numbers_read_as_themselves(width as nat);
    law_written_numbers_read_as_themselves(height as nat);
    reveal_strlit(":");
    reveal_strlit("x");
    reveal_strlit("x24");
    assert(display_text(n).skip(1) =~= decimal(n as nat));
    let a = decimal(width as nat);
    let b = decimal(height as nat);
    let t = screen_text(width, height);
    let (w, h) = (a.len() as int, b.len() as int);
    assert(t.take(w) =~= a);
    assert(t.subrange(w + 1, w + 1 + h) =~= b);
    assert(t.skip(w + 1 + h) =~= seq!['x', '2', '4']);
}

/// The widest mode is no narrower than any other.
pub proof fn law_widest_mode_is_the_widest(widths: Seq<usize>, k: int, j: int)
    requires
        is_widest(widths, k),
        0 <= j < widths.len(),
    ensures
        0 <= k < widths.len(),
        widths[j] <= widths[k],
        widths[j] == widths[k] ==> k <= j,
{
}

/// The numbers of a virtual display.
pub proof fn law_display_limits()
    ensures
        DISPLAY_NUMBER == 99,
        VENDOR_ID == 505,
        READY_ATTEMPTS == 20,
{
}

} // verus!
