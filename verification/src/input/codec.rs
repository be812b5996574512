//! Input events as bytes.
use crate::bytes::{
    le_bytes, lemma_le_bytes_len, lemma_le_round_trip, lemma_le_value_bytes, lemma_pow256_widths,
    pow256,
};
use crate::error::WireError;
use crate::headers::{lemma_int_read_back, lemma_int_was_written};
use crate::protocol::{
    InputEvent, KeyboardEvent, ModifierFlags, MouseButtonEvent, MouseMoveEvent, MouseScrollEvent,
    RawHidEvent,
};
use crate::wire::{
    blob_bytes, blob_error, blob_of, bool_byte, get_blob, get_bool, get_u16, get_u32, get_u64,
    get_u8, int_at, put_blob, put_bool, put_u16, put_u32, put_u64, put_u8,
};
use vstd::prelude::*;
use vstd::slice::slice_subrange;

verus! {

broadcast use lemma_le_bytes_len;

/// What a raw HID report says.
pub struct RawHidView {
    pub vendor_id: u16,
    pub product_id: u16,
    pub report_id: u8,
    pub data: Seq<u8>,
    pub timestamp_us: u64,
}

/// What an input event says.
pub enum InputView {
    Keyboard(KeyboardEvent),
    MouseMove(MouseMoveEvent),
    MouseButton(MouseButtonEvent),
    MouseScroll(MouseScrollEvent),
    RawHid(RawHidView),
}

impl View for RawHidEvent {
    type V = RawHidView;

    open spec fn view(&self) -> RawHidView {
        RawHidView {
            vendor_id: self.vendor_id,
            product_id: self.product_id,
            report_id: self.report_id,
            data: self.data@,
            timestamp_us: self.timestamp_us,
        }
    }
}

impl View for InputEvent {
    type V = InputView;

    open spec fn view(&self) -> InputView {
        match self {
            InputEvent::Keyboard(e) => InputView::Keyboard(*e),
            InputEvent::MouseMove(e) => InputView::MouseMove(*e),
            InputEvent::MouseButton(e) => InputView::MouseButton(*e),
            InputEvent::MouseScroll(e) => InputView::MouseScroll(*e),
            InputEvent::RawHid(e) => InputView::RawHid(e@),
        }
    }
}

/// What stops the booleans at `from` up to `to` from being read, if anything.
pub open spec fn bools_error(s: Seq<u8>, from: int, to: int) -> Option<WireError>
    decreases to - from,
{
    if from >= to {
        None
    } else if from >= s.len() {
        Some(WireError::UnexpectedEnd)
    } else if s[from] > 1 {
        Some(WireError::InvalidBool(s[from]))
    } else {
        bools_error(s, from + 1, to)
    }
}

/// What stops a value of `len` bytes with booleans at `from` up to `to` from
/// being read, if anything.
pub open spec fn fixed_error(s: Seq<u8>, from: int, to: int, len: int) -> Option<WireError> {
    if bools_error(s, from, to) is Some {
        bools_error(s, from, to)
    } else if s.len() < len {
        Some(WireError::UnexpectedEnd)
    } else {
        None
    }
}

/// The modifier flags as six bytes.
pub open spec fn modifier_bytes(m: ModifierFlags) -> Seq<u8> {
    seq![
        bool_byte(m.shift),
        bool_byte(m.control),
        bool_byte(m.option),
        bool_byte(m.command),
        bool_byte(m.caps_lock),
        bool_byte(m.fn_key),
    ]
}

impl KeyboardEvent {
    /// The event in bytes.
    pub open spec fn encoding(self) -> Seq<u8> {
        le_bytes(self.key_code as nat, 2) + seq![bool_byte(self.is_pressed)] + modifier_bytes(
            self.modifiers,
        ) + le_bytes(self.timestamp_us as nat, 8)
    }

    fn put(&self, out: &mut Vec<u8>)
        ensures
            final(out)@ == old(out)@ + self.encoding(),
    {
        put_u16(out, self.key_code);
        put_bool(out, self.is_pressed);
        put_bool(out, self.modifiers.shift);
        put_bool(out, self.modifiers.control);
        put_bool(out, self.modifiers.option);
        put_bool(out, self.modifiers.command);
        put_bool(out, self.modifiers.caps_lock);
        put_bool(out, self.modifiers.fn_key);
        put_u64(out, self.timestamp_us);
        assert(out@ =~= old(out)@ + self.encoding());
    }

    fn get(data: &[u8]) -> (r: Result<KeyboardEvent, WireError>)
        ensures
            match r {
                Ok(e) => fixed_error(data@, 2, 9, 17) is None && e.encoding() == data@.take(17),
                Err(e) => fixed_error(data@, 2, 9, 17) == Some(e),
            },
    {
        proof {
            reveal_with_fuel(bools_error, 8);
        }
        let key_code: u16 = get_u16(data, 0)?;
        let is_pressed = get_bool(data, 2)?;
        let shift = get_bool(data, 3)?;
        let control = get_bool(data, 4)?;
        let option = get_bool(data, 5)?;
        let command = get_bool(data, 6)?;
        let caps_lock = get_bool(data, 7)?;
        let fn_key = get_bool(data, 8)?;
        let timestamp_us: u64 = get_u64(data, 9)?;
        let modifiers = ModifierFlags { shift, control, option, command, caps_lock, fn_key };
        proof {
            let d = data@;
            lemma_int_was_written(d, 0, 2);
            lemma_int_was_written(d, 9, 8);
            assert(d.subrange(2, 3) =~= seq![bool_byte(is_pressed)]);
            assert(d.subrange(3, 9) =~= modifier_bytes(modifiers));
            assert(d.take(17) =~= d.subrange(0, 2) + d.subrange(2, 3) + d.subrange(3, 9)
                + d.subrange(9, 17));
        }
        Ok(KeyboardEvent { key_code, is_pressed, modifiers, timestamp_us })
    }
}

impl MouseMoveEvent {
    /// The event in bytes.
    pub open spec fn encoding(self) -> Seq<u8> {
        le_bytes(self.x_bits as nat, 8) + le_bytes(self.y_bits as nat, 8) + le_bytes(
            self.delta_x_bits as nat,
            8,
        ) + le_bytes(self.delta_y_bits as nat, 8) + seq![bool_byte(self.is_absolute)] + le_bytes(
            self.timestamp_us as nat,
            8,
        )
    }

    fn put(&self, out: &mut Vec<u8>)
        ensures
            final(out)@ == old(out)@ + self.encoding(),
    {
        put_u64(out, self.x_bits);
        put_u64(out, self.y_bits);
        put_u64(out, self.delta_x_bits);
        put_u64(out, self.delta_y_bits);
        put_bool(out, self.is_absolute);
        put_u64(out, self.timestamp_us);
        assert(out@ =~= old(out)@ + self.encoding());
    }

    fn get(data: &[u8]) -> (r: Result<MouseMoveEvent, WireError>)
        ensures
            match r {
                Ok(e) => fixed_error(data@, 32, 33, 41) is None && e.encoding() == data@.take(41),
                Err(e) => fixed_error(data@, 32, 33, 41) == Some(e),
            },
    {
        proof {
            reveal_with_fuel(bools_error, 2);
        }
        let x_bits: u64 = get_u64(data, 0)?;
        let y_bits: u64 = get_u64(data, 8)?;
        let delta_x_bits: u64 = get_u64(data, 16)?;
        let delta_y_bits: u64 = get_u64(data, 24)?;
        let is_absolute = get_bool(data, 32)?;
        let timestamp_us: u64 = get_u64(data, 33)?;
        proof {
            let d = data@;
            lemma_int_was_written(d, 0, 8);
            lemma_int_was_written(d, 8, 8);
            lemma_int_was_written(d, 16, 8);
            lemma_int_was_written(d, 24, 8);
            lemma_int_was_written(d, 33, 8);
            assert(d.subrange(32, 33) =~= seq![bool_byte(is_absolute)]);
            assert(d.take(41) =~= d.subrange(0, 8) + d.subrange(8, 16) + d.subrange(16, 24)
                + d.subrange(24, 32) + d.subrange(32, 33) + d.subrange(33, 41));
        }
        Ok(
            MouseMoveEvent {
                x_bits,
                y_bits,
                delta_x_bits,
                delta_y_bits,
                is_absolute,
                timestamp_us,
            },
        )
    }
}

impl MouseButtonEvent {
    /// The event in bytes.
    pub open spec fn encoding(self) -> Seq<u8> {
        seq![self.button, bool_byte(self.is_pressed), self.click_count] + le_bytes(
            self.timestamp_us as nat,
            8,
        )
    }

    fn put(&self, out: &mut Vec<u8>)
        ensures
            final(out)@ == old(out)@ + self.encoding(),
    {
        put_u8(out, self.button);
        put_bool(out, self.is_pressed);
        put_u8(out, self.click_count);
        put_u64(out, self.timestamp_us);
        assert(out@ =~= old(out)@ + self.encoding());
    }

    fn get(data: &[u8]) -> (r: Result<MouseButtonEvent, WireError>)
        ensures
            match r {
                Ok(e) => fixed_error(data@, 1, 2, 11) is None && e.encoding() == data@.take(11),
                Err(e) => fixed_error(data@, 1, 2, 11) == Some(e),
            },
    {
        proof {
            reveal_with_fuel(bools_error, 2);
        }
        let button: u8 = get_u8(data, 0)?;
        let is_pressed = get_bool(data, 1)?;
        let click_count: u8 = get_u8(data, 2)?;
        let timestamp_us: u64 = get_u64(data, 3)?;
        proof {
            let d = data@;
            lemma_int_was_written(d, 3, 8);
            assert(d.subrange(0, 3) =~= seq![button, bool_byte(is_pressed), click_count]);
            assert(d.take(11) =~= d.subrange(0, 3) + d.subrange(3, 11));
        }
        Ok(MouseButtonEvent { button, is_pressed, click_count, timestamp_us })
    }
}

impl MouseScrollEvent {
    /// The event in bytes.
    pub open spec fn encoding(self) -> Seq<u8> {
        le_bytes(self.delta_x_bits as nat, 8) + le_bytes(self.delta_y_bits as nat, 8) + seq![
            bool_byte(self.is_continuous),
        ] + le_bytes(self.timestamp_us as nat, 8)
    }

    fn put(&self, out: &mut Vec<u8>)
        ensures
            final(out)@ == old(out)@ + self.encoding(),
    {
        put_u64(out, self.delta_x_bits);
        put_u64(out, self.delta_y_bits);
        put_bool(out, self.is_continuous);
        put_u64(out, self.timestamp_us);
        assert(out@ =~= old(out)@ + self.encoding());
    }

    fn get(data: &[u8]) -> (r: Result<MouseScrollEvent, WireError>)
        ensures
            match r {
                Ok(e) => fixed_error(data@, 16, 17, 25) is None && e.encoding() == data@.take(25),
                Err(e) => fixed_error(data@, 16, 17, 25) == Some(e),
            },
    {
        proof {
            reveal_with_fuel(bools_error, 2);
        }
        let delta_x_bits: u64 = get_u64(data, 0)?;
        let delta_y_bits: u64 = get_u64(data, 8)?;
        let is_continuous = get_bool(data, 16)?;
        let timestamp_us: u64 = get_u64(data, 17)?;
        proof {
            let d = data@;
            lemma_int_was_written(d, 0, 8);
            lemma_int_was_written(d, 8, 8);
            lemma_int_was_written(d, 17, 8);
            assert(d.subrange(16, 17) =~= seq![bool_byte(is_continuous)]);
            assert(d.take(25) =~= d.subrange(0, 8) + d.subrange(8, 16) + d.subrange(16, 17)
                + d.subrange(17, 25));
        }
        Ok(MouseScrollEvent { delta_x_bits, delta_y_bits, is_continuous, timestamp_us })
    }
}

impl RawHidView {
    /// The report in bytes.
    pub open spec fn encoding(self) -> Seq<u8> {
        le_bytes(self.vendor_id as nat, 2) + le_bytes(self.product_id as nat, 2) + seq![
            self.report_id,
        ] + blob_bytes(self.data) + le_bytes(self.timestamp_us as nat, 8)
    }

    /// Whether the report at the start of `s` can be read, and what stops it.
    pub open spec fn read_error(s: Seq<u8>) -> Option<WireError> {
        if s.len() < 5 {
            Some(WireError::UnexpectedEnd)
        } else if blob_error(s.skip(5)) is Some {
            blob_error(s.skip(5))
        } else if s.len() < 21 + blob_of(s.skip(5)).len() {
            Some(WireError::UnexpectedEnd)
        } else {
            None
        }
    }
}

impl RawHidEvent {
    fn get(data: &[u8]) -> (r: Result<RawHidEvent, WireError>)
        ensures
            match r {
                Ok(e) => RawHidView::read_error(data@) is None && e@.encoding().is_prefix_of(data@),
                Err(e) => RawHidView::read_error(data@) == Some(e),
            },
    {
        let vendor_id: u16 = get_u16(data, 0)?;
        let product_id: u16 = get_u16(data, 2)?;
        let report_id: u8 = get_u8(data, 4)?;
        let (report, end): (Vec<u8>, usize) = get_blob(data, 5)?;
        let timestamp_us: u64 = get_u64(data, end)?;
        let e = RawHidEvent { vendor_id, product_id, report_id, data: report, timestamp_us };
        proof {
            let d = data@;
            let t = d.skip(5);
            let b = blob_of(t);
            lemma_int_was_written(d, 0, 2);
            lemma_int_was_written(d, 2, 2);
            lemma_int_was_written(d, end as int, 8);
            lemma_le_value_bytes(t.take(8));
            assert(d.subrange(4, 5) =~= seq![report_id]);
            assert(t.take(8) + b =~= d.subrange(5, end as int));
            assert(e@.encoding() =~= d.subrange(0, 2) + d.subrange(2, 4) + d.subrange(4, 5)
                + d.subrange(5, end as int) + d.subrange(end as int, end + 8));
            assert(e@.encoding() =~= d.subrange(0, end + 8));
        }
        Ok(e)
    }
}

impl InputView {
    /// The variant's place in the enumeration, by which it travels.
    pub open spec fn place(self) -> nat {
        match self {
            InputView::Keyboard(_) => 0,
            InputView::MouseMove(_) => 1,
            InputView::MouseButton(_) => 2,
            InputView::MouseScroll(_) => 3,
            InputView::RawHid(_) => 4,
        }
    }

    /// The contents of the variant in bytes.
    pub open spec fn body(self) -> Seq<u8> {
        match self {
            InputView::Keyboard(e) => e.encoding(),
            InputView::MouseMove(e) => e.encoding(),
            InputView::MouseButton(e) => e.encoding(),
            InputView::MouseScroll(e) => e.encoding(),
            InputView::RawHid(e) => e.encoding(),
        }
    }

    /// The event in bytes.
    pub open spec fn encoding(self) -> Seq<u8> {
        le_bytes(self.place(), 4) + self.body()
    }

    /// Whether the event at the start of `s` can be read, and what stops it.
    pub open spec fn read_error(s: Seq<u8>) -> Option<WireError> {
        let place = int_at(s, 0, 4);
        let t = s.skip(4);
        if s.len() < 4 {
            Some(WireError::UnexpectedEnd)
        } else if place == 0 {
            fixed_error(t, 2, 9, 17)
        } else if place == 1 {
            fixed_error(t, 32, 33, 41)
        } else if place == 2 {
            fixed_error(t, 1, 2, 11)
        } else if place == 3 {
            fixed_error(t, 16, 17, 25)
        } else if place == 4 {
            RawHidView::read_error(t)
        } else {
            Some(WireError::InvalidVariant(place as u32, 5))
        }
    }

    /// Whether a report's data is short enough for its length to be written, as
    /// all data in memory is.
    pub open spec fn fits(self) -> bool {
        self matches InputView::RawHid(e) ==> e.data.len() <= usize::MAX
    }
}

impl InputEvent {
    /// Serialize event to bytes.
    pub fn to_bytes(&self) -> (r: Result<Vec<u8>, WireError>)
        ensures
            r matches Ok(v) && v@ == self@.encoding(),
    {
        let mut out: Vec<u8> = Vec::new();
        match self {
            InputEvent::Keyboard(e) => {
                put_u32(&mut out, 0);
                e.put(&mut out);
            },
            InputEvent::MouseMove(e) => {
                put_u32(&mut out, 1);
                e.put(&mut out);
            },
            InputEvent::MouseButton(e) => {
                put_u32(&mut out, 2);
                e.put(&mut out);
            },
            InputEvent::MouseScroll(e) => {
                put_u32(&mut out, 3);
                e.put(&mut out);
            },
            InputEvent::RawHid(e) => {
                put_u32(&mut out, 4);
                put_u16(&mut out, e.vendor_id);
                put_u16(&mut out, e.product_id);
                put_u8(&mut out, e.report_id);
                put_blob(&mut out, e.data.as_slice());
                put_u64(&mut out, e.timestamp_us);
            },
        }
        assert(out@ =~= self@.encoding());
        Ok(out)
    }

    /// Deserialize event from bytes. Bytes behind the event are left alone.
    pub fn from_bytes(data: &[u8]) -> (r: Result<Self, WireError>)
        ensures
            match r {
                Ok(e) => InputView::read_error(data@) is None && e@.encoding().is_prefix_of(data@),
                Err(e) => InputView::read_error(data@) == Some(e),
            },
    {
        let ghost d = data@;
        let place: u32 = get_u32(data, 0)?;
        let rest = slice_subrange(data, 4, data.len());
        assert(rest@ =~= d.skip(4));
        proof {
            lemma_int_was_written(d, 0, 4);
        }
        let e = match place {
            0 => InputEvent::Keyboard(KeyboardEvent::get(rest)?),
            1 => InputEvent::MouseMove(MouseMoveEvent::get(rest)?),
            2 => InputEvent::MouseButton(MouseButtonEvent::get(rest)?),
            3 => InputEvent::MouseScroll(MouseScrollEvent::get(rest)?),
            4 => InputEvent::RawHid(RawHidEvent::get(rest)?),
            _ => {
                return Err(WireError::InvalidVariant(place, 5));
            },
        };
        proof {
            let body = e@.body();
            assert(e@.place() == place);
            assert(body =~= d.skip(4).take(body.len() as int));
            assert(e@.encoding() =~= d.subrange(0, 4 + body.len() as int));
        }
        Ok(e)
    }
}

/// Reading an input event back from its encoding, with anything behind it,
/// succeeds.
pub proof fn law_input_event_reads_back(e: InputView, rest: Seq<u8>)
    requires
        e.fits(),
    ensures
        InputView::read_error(e.encoding() + rest) is None,
{
    lemma_pow256_widths();
    reveal_with_fuel(bools_error, 8);
    let body = e.body();
    let s = le_bytes(e.place(), 4) + body + rest;
    assert(s.subrange(0, 4) =~= le_bytes(e.place(), 4));
    lemma_int_read_back(s, 0, e.place(), 4);
    let t = body + rest;
    assert(s.skip(4) =~= t);
    match e {
        InputView::Keyboard(k) => {
            assert(t[2] == bool_byte(k.is_pressed));
            assert(t[3] == bool_byte(k.modifiers.shift));
            assert(t[4] == bool_byte(k.modifiers.control));
            assert(t[5] == bool_byte(k.modifiers.option));
            assert(t[6] == bool_byte(k.modifiers.command));
            assert(t[7] == bool_byte(k.modifiers.caps_lock));
            assert(t[8] == bool_byte(k.modifiers.fn_key));
        },
        InputView::MouseMove(m) => {
            assert(t[32] == bool_byte(m.is_absolute));
        },
        InputView::MouseButton(b) => {
            assert(t[1] == bool_byte(b.is_pressed));
        },
        InputView::MouseScroll(m) => {
            assert(t[16] == bool_byte(m.is_continuous));
        },
        InputView::RawHid(h) => {
            let u = t.skip(5);
            assert(u.take(8) =~= le_bytes(h.data.len(), 8));
            lemma_le_round_trip(h.data.len(), 8);
            assert(blob_of(u) =~= h.data);
        },
    }
}

/// The numbers of two equal encodings at one place are equal.
proof fn lemma_same_number(s: Seq<u8>, t: Seq<u8>, pos: int, n: nat, x: nat, y: nat)
    requires
        s == t,
        0 <= pos,
        pos + n <= s.len(),
        s.subrange(pos, pos + n) == le_bytes(x, n),
        t.subrange(pos, pos + n) == le_bytes(y, n),
        x < pow256(n),
        y < pow256(n),
    ensures
        x == y,
{
    lemma_le_round_trip(x, n);
    lemma_le_round_trip(y, n);
}

proof fn lemma_keyboard_injective(a: KeyboardEvent, b: KeyboardEvent)
    requires
        a.encoding() == b.encoding(),
    ensures
        a == b,
{
    lemma_pow256_widths();
    let s = a.encoding();
    let t = b.encoding();
    assert(s.subrange(0, 2) =~= le_bytes(a.key_code as nat, 2));
    assert(t.subrange(0, 2) =~= le_bytes(b.key_code as nat, 2));
    lemma_same_number(s, t, 0, 2, a.key_code as nat, b.key_code as nat);
    assert(s.subrange(9, 17) =~= le_bytes(a.timestamp_us as nat, 8));
    assert(t.subrange(9, 17) =~= le_bytes(b.timestamp_us as nat, 8));
    lemma_same_number(s, t, 9, 8, a.timestamp_us as nat, b.timestamp_us as nat);
    assert(s[2] == bool_byte(a.is_pressed) && t[2] == bool_byte(b.is_pressed));
    assert(s[3] == bool_byte(a.modifiers.shift) && t[3] == bool_byte(b.modifiers.shift));
    assert(s[4] == bool_byte(a.modifiers.control) && t[4] == bool_byte(b.modifiers.control));
    assert(s[5] == bool_byte(a.modifiers.option) && t[5] == bool_byte(b.modifiers.option));
    assert(s[6] == bool_byte(a.modifiers.command) && t[6] == bool_byte(b.modifiers.command));
    assert(s[7] == bool_byte(a.modifiers.caps_lock) && t[7] == bool_byte(b.modifiers.caps_lock));
    assert(s[8] == bool_byte(a.modifiers.fn_key) && t[8] == bool_byte(b.modifiers.fn_key));
}

proof fn lemma_move_injective(a: MouseMoveEvent, b: MouseMoveEvent)
    requires
        a.encoding() == b.encoding(),
    ensures
        a == b,
{
    lemma_pow256_widths();
    let s = a.encoding();
    let t = b.encoding();
    assert(s.subrange(0, 8) =~= le_bytes(a.x_bits as nat, 8));
    assert(t.subrange(0, 8) =~= le_bytes(b.x_bits as nat, 8));
    lemma_same_number(s, t, 0, 8, a.x_bits as nat, b.x_bits as nat);
    assert(s.subrange(8, 16) =~= le_bytes(a.y_bits as nat, 8));
    assert(t.subrange(8, 16) =~= le_bytes(b.y_bits as nat, 8));
    lemma_same_number(s, t, 8, 8, a.y_bits as nat, b.y_bits as nat);
    assert(s.subrange(16, 24) =~= le_bytes(a.delta_x_bits as nat, 8));
    assert(t.subrange(16, 24) =~= le_bytes(b.delta_x_bits as nat, 8));
    lemma_same_number(s, t, 16, 8, a.delta_x_bits as nat, b.delta_x_bits as nat);
    assert(s.subrange(24, 32) =~= le_bytes(a.delta_y_bits as nat, 8));
    assert(t.subrange(24, 32) =~= le_bytes(b.delta_y_bits as nat, 8));
    lemma_same_number(s, t, 24, 8, a.delta_y_bits as nat, b.delta_y_bits as nat);
    assert(s[32] == bool_byte(a.is_absolute) && t[32] == bool_byte(b.is_absolute));
    assert(s.subrange(33, 41) =~= le_bytes(a.timestamp_us as nat, 8));
    assert(t.subrange(33, 41) =~= le_bytes(b.timestamp_us as nat, 8));
    lemma_same_number(s, t, 33, 8, a.timestamp_us as nat, b.timestamp_us as nat);
}

proof fn lemma_button_injective(a: MouseButtonEvent, b: MouseButtonEvent)
    requires
        a.encoding() == b.encoding(),
    ensures
        a == b,
{
    lemma_pow256_widths();
    let s = a.encoding();
    let t = b.encoding();
    assert(s[0] == a.button && t[0] == b.button);
    assert(s[1] == bool_byte(a.is_pressed) && t[1] == bool_byte(b.is_pressed));
    assert(s[2] == a.click_count && t[2] == b.click_count);
    assert(s.subrange(3, 11) =~= le_bytes(a.timestamp_us as nat, 8));
    assert(t.subrange(3, 11) =~= le_bytes(b.timestamp_us as nat, 8));
    lemma_same_number(s, t, 3, 8, a.timestamp_us as nat, b.timestamp_us as nat);
}

proof fn lemma_scroll_injective(a: MouseScrollEvent, b: MouseScrollEvent)
    requires
        a.encoding() == b.encoding(),
    ensures
        a == b,
{
    lemma_pow256_widths();
    let s = a.encoding();
    let t = b.encoding();
    assert(s.subrange(0, 8) =~= le_bytes(a.delta_x_bits as nat, 8));
    assert(t.subrange(0, 8) =~= le_bytes(b.delta_x_bits as nat, 8));
    lemma_same_number(s, t, 0, 8, a.delta_x_bits as nat, b.delta_x_bits as nat);
    assert(s.subrange(8, 16) =~= le_bytes(a.delta_y_bits as nat, 8));
    assert(t.subrange(8, 16) =~= le_bytes(b.delta_y_bits as nat, 8));
    lemma_same_number(s, t, 8, 8, a.delta_y_bits as nat, b.delta_y_bits as nat);
    assert(s[16] == bool_byte(a.is_continuous) && t[16] == bool_byte(b.is_continuous));
    assert(s.subrange(17, 25) =~= le_bytes(a.timestamp_us as nat, 8));
    assert(t.subrange(17, 25) =~= le_bytes(b.timestamp_us as nat, 8));
    lemma_same_number(s, t, 17, 8, a.timestamp_us as nat, b.timestamp_us as nat);
}

proof fn lemma_raw_hid_read_one_way(a: RawHidView, b: RawHidView, s: Seq<u8>)
    requires
        a.data.len() <= usize::MAX,
        b.data.len() <= usize::MAX,
        a.encoding().is_prefix_of(s),
        b.encoding().is_prefix_of(s),
    ensures
        a == b,
{
    lemma_pow256_widths();
    let x = a.encoding();
    let y = b.encoding();
    assert(x.subrange(5, 13) =~= le_bytes(a.data.len(), 8));
    assert(y.subrange(5, 13) =~= le_bytes(b.data.len(), 8));
    assert(x.subrange(5, 13) =~= s.subrange(5, 13));
    assert(y.subrange(5, 13) =~= s.subrange(5, 13));
    lemma_le_round_trip(a.data.len(), 8);
    lemma_le_round_trip(b.data.len(), 8);
    assert(x =~= y);
    assert(x.subrange(0, 2) =~= le_bytes(a.vendor_id as nat, 2));
    assert(y.subrange(0, 2) =~= le_bytes(b.vendor_id as nat, 2));
    lemma_same_number(x, y, 0, 2, a.vendor_id as nat, b.vendor_id as nat);
    assert(x.subrange(2, 4) =~= le_bytes(a.product_id as nat, 2));
    assert(y.subrange(2, 4) =~= le_bytes(b.product_id as nat, 2));
    lemma_same_number(x, y, 2, 2, a.product_id as nat, b.product_id as nat);
    assert(x[4] == a.report_id && y[4] == b.report_id);
    let n = a.data.len() as int;
    assert(x.subrange(13, 13 + n) =~= a.data);
    assert(y.subrange(13, 13 + n) =~= b.data);
    assert(x.subrange(13 + n, 21 + n) =~= le_bytes(a.timestamp_us as nat, 8));
    assert(y.subrange(13 + n, 21 + n) =~= le_bytes(b.timestamp_us as nat, 8));
    lemma_same_number(x, y, 13 + n, 8, a.timestamp_us as nat, b.timestamp_us as nat);
}

/// No byte sequence starts with the encodings of two input events: what was read
/// is what was written.
#[verifier::rlimit(40)]
pub proof fn law_input_event_is_read_one_way(a: InputView, b: InputView, s: Seq<u8>)
    requires
        a.fits(),
        b.fits(),
        a.encoding().is_prefix_of(s),
        b.encoding().is_prefix_of(s),
    ensures
        a == b,
{
    lemma_pow256_widths();
    assert(s.subrange(0, 4) =~= a.encoding().subrange(0, 4));
    assert(s.subrange(0, 4) =~= b.encoding().subrange(0, 4));
    assert(a.encoding().subrange(0, 4) =~= le_bytes(a.place(), 4));
    assert(b.encoding().subrange(0, 4) =~= le_bytes(b.place(), 4));
    lemma_le_round_trip(a.place(), 4);
    lemma_le_round_trip(b.place(), 4);
    let t = s.skip(4);
    assert(a.body() =~= t.subrange(0, a.body().len() as int)) by {
        assert(a.encoding().skip(4) =~= a.body());
    }
    assert(b.body() =~= t.subrange(0, b.body().len() as int)) by {
        assert(b.encoding().skip(4) =~= b.body());
    }
    match (a, b) {
        (InputView::Keyboard(x), InputView::Keyboard(y)) => {
            lemma_keyboard_injective(x, y);
        },
        (InputView::MouseMove(x), InputView::MouseMove(y)) => {
            lemma_move_injective(x, y);
        },
        (InputView::MouseButton(x), InputView::MouseButton(y)) => {
            lemma_button_injective(x, y);
        },
        (InputView::MouseScroll(x), InputView::MouseScroll(y)) => {
            lemma_scroll_injective(x, y);
        },
        (InputView::RawHid(x), InputView::RawHid(y)) => {
            lemma_raw_hid_read_one_way(x, y, t);
        },
        _ => {},
    }
}

/// A keyboard event has its fields in these places.
pub proof fn law_keyboard_event_layout(c: KeyboardEvent)
    ensures
        c.encoding().len() == 17,
        int_at(c.encoding(), 0, 2) == c.key_code,
        c.encoding()[2] == (if c.is_pressed {
            1int
        } else {
            0
        }),
        c.encoding()[3] == (if c.modifiers.shift {
            1int
        } else {
            0
        }),
        c.encoding()[4] == (if c.modifiers.control {
            1int
        } else {
            0
        }),
        c.encoding()[5] == (if c.modifiers.option {
            1int
        } else {
            0
        }),
        c.encoding()[6] == (if c.modifiers.command {
            1int
        } else {
            0
        }),
        c.encoding()[7] == (if c.modifiers.caps_lock {
            1int
        } else {
            0
        }),
        c.encoding()[8] == (if c.modifiers.fn_key {
            1int
        } else {
            0
        }),
        int_at(c.encoding(), 9, 8) == c.timestamp_us,
{
    lemma_pow256_widths();
    let s = c.encoding();
    assert(s.subrange(0, 2) =~= le_bytes(c.key_code as nat, 2));
    lemma_int_read_back(s, 0, c.key_code as nat, 2);
    assert(s.subrange(9, 17) =~= le_bytes(c.timestamp_us as nat, 8));
    lemma_int_read_back(s, 9, c.timestamp_us as nat, 8);
}

/// A movement has its fields in these places.
pub proof fn law_move_event_layout(c: MouseMoveEvent)
    ensures
        c.encoding().len() == 41,
        int_at(c.encoding(), 0, 8) == c.x_bits,
        int_at(c.encoding(), 8, 8) == c.y_bits,
        int_at(c.encoding(), 16, 8) == c.delta_x_bits,
        int_at(c.encoding(), 24, 8) == c.delta_y_bits,
        c.encoding()[32] == (if c.is_absolute {
            1int
        } else {
            0
        }),
        int_at(c.encoding(), 33, 8) == c.timestamp_us,
{
    lemma_pow256_widths();
    let s = c.encoding();
    assert(s.subrange(0, 8) =~= le_bytes(c.x_bits as nat, 8));
    lemma_int_read_back(s, 0, c.x_bits as nat, 8);
    assert(s.subrange(8, 16) =~= le_bytes(c.y_bits as nat, 8));
    lemma_int_read_back(s, 8, c.y_bits as nat, 8);
    assert(s.subrange(16, 24) =~= le_bytes(c.delta_x_bits as nat, 8));
    lemma_int_read_back(s, 16, c.delta_x_bits as nat, 8);
    assert(s.subrange(24, 32) =~= le_bytes(c.delta_y_bits as nat, 8));
    lemma_int_read_back(s, 24, c.delta_y_bits as nat, 8);
    assert(s.subrange(33, 41) =~= le_bytes(c.timestamp_us as nat, 8));
    lemma_int_read_back(s, 33, c.timestamp_us as nat, 8);
}

/// A button event has its fields in these places.
pub proof fn law_button_event_layout(c: MouseButtonEvent)
    ensures
        c.encoding().len() == 11,
        c.encoding()[0] == c.button,
        c.encoding()[1] == (if c.is_pressed {
            1int
        } else {
            0
        }),
        c.encoding()[2] == c.click_count,
        int_at(c.encoding(), 3, 8) == c.timestamp_us,
{
    lemma_pow256_widths();
    let s = c.encoding();
    assert(s.subrange(3, 11) =~= le_bytes(c.timestamp_us as nat, 8));
    lemma_int_read_back(s, 3, c.timestamp_us as nat, 8);
}

/// A scroll event has its fields in these places.
pub proof fn law_scroll_event_layout(c: MouseScrollEvent)
    ensures
        c.encoding().len() == 25,
        int_at(c.encoding(), 0, 8) == c.delta_x_bits,
        int_at(c.encoding(), 8, 8) == c.delta_y_bits,
        c.encoding()[16] == (if c.is_continuous {
            1int
        } else {
            0
        }),
        int_at(c.encoding(), 17, 8) == c.timestamp_us,
{
    lemma_pow256_widths();
    let s = c.encoding();
    assert(s.subrange(0, 8) =~= le_bytes(c.delta_x_bits as nat, 8));
    lemma_int_read_back(s, 0, c.delta_x_bits as nat, 8);
    assert(s.subrange(8, 16) =~= le_bytes(c.delta_y_bits as nat, 8));
    lemma_int_read_back(s, 8, c.delta_y_bits as nat, 8);
    assert(s.subrange(17, 25) =~= le_bytes(c.timestamp_us as nat, 8));
    lemma_int_read_back(s, 17, c.timestamp_us as nat, 8);
}

/// A raw report has its fields in these places, its data behind their length.
pub proof fn law_raw_report_layout(c: RawHidView)
    requires
        c.data.len() <= usize::MAX,
    ensures
        c.encoding().len() == 21 + c.data.len(),
        int_at(c.encoding(), 0, 2) == c.vendor_id,
        int_at(c.encoding(), 2, 2) == c.product_id,
        c.encoding()[4] == c.report_id,
        int_at(c.encoding(), 5, 8) == c.data.len(),
        c.encoding().subrange(13, 13 + c.data.len() as int) == c.data,
        int_at(c.encoding(), 13 + c.data.len() as int, 8) == c.timestamp_us,
{
    lemma_pow256_widths();
    let s = c.encoding();
    let n = c.data.len() as int;
    assert(s.subrange(0, 2) =~= le_bytes(c.vendor_id as nat, 2));
    lemma_int_read_back(s, 0, c.vendor_id as nat, 2);
    assert(s.subrange(2, 4) =~= le_bytes(c.product_id as nat, 2));
    lemma_int_read_back(s, 2, c.product_id as nat, 2);
    assert(s.subrange(5, 13) =~= le_bytes(c.data.len(), 8));
    lemma_int_read_back(s, 5, c.data.len(), 8);
    assert(s.subrange(13, 13 + n) =~= c.data);
    assert(s.subrange(13 + n, 21 + n) =~= le_bytes(c.timestamp_us as nat, 8));
    lemma_int_read_back(s, 13 + n, c.timestamp_us as nat, 8);
}

/// An input event travels behind the number of its kind.
pub proof fn law_input_event_layout(e: InputView)
    ensures
        int_at(e.encoding(), 0, 4) == (match e {
            InputView::Keyboard(_) => 0int,
            InputView::MouseMove(_) => 1,
            InputView::MouseButton(_) => 2,
            InputView::MouseScroll(_) => 3,
            InputView::RawHid(_) => 4,
        }),
        e.encoding().skip(4) == (match e {
            InputView::Keyboard(k) => k.encoding(),
            InputView::MouseMove(m) => m.encoding(),
            InputView::MouseButton(b) => b.encoding(),
            InputView::MouseScroll(w) => w.encoding(),
            InputView::RawHid(r) => r.encoding(),
        }),
{
    lemma_pow256_widths();
    let s = e.encoding();
    assert(s.subrange(0, 4) =~= le_bytes(e.place(), 4));
    lemma_int_read_back(s, 0, e.place(), 4);
    assert(s.skip(4) =~= e.body());
}

/// The model of an input event says what the event says, field by field.
pub proof fn law_events_say_what_they_hold(e: InputEvent)
    ensures
        e matches InputEvent::Keyboard(k) ==> e@ == InputView::Keyboard(k),
        e matches InputEvent::MouseMove(m) ==> e@ == InputView::MouseMove(m),
        e matches InputEvent::MouseButton(b) ==> e@ == InputView::MouseButton(b),
        e matches InputEvent::MouseScroll(s) ==> e@ == InputView::MouseScroll(s),
        e matches InputEvent::RawHid(h) ==> (e@ matches InputView::RawHid(v) && v.vendor_id
            == h.vendor_id && v.product_id == h.product_id && v.report_id == h.report_id && v.data
            == h.data@ && v.timestamp_us == h.timestamp_us),
{
}

} // verus!
