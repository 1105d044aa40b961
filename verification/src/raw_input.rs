use vstd::prelude::*;

use crate::keyboard::HIDScanCode;

verus! {

/// `MOUSE_MOVE_ABSOLUTE`: the mouse reports absolute positions.
pub const MOUSE_MOVE_ABSOLUTE: u16 = 0x01;
/// Raw mouse button flag: left button went down.
pub const RI_MOUSE_BUTTON_1_DOWN: u16 = 0x0001;
/// Raw mouse button flag: left button went up.
pub const RI_MOUSE_BUTTON_1_UP: u16 = 0x0002;
/// Raw mouse button flag: right button went down.
pub const RI_MOUSE_BUTTON_2_DOWN: u16 = 0x0004;
/// Raw mouse button flag: right button went up.
pub const RI_MOUSE_BUTTON_2_UP: u16 = 0x0008;
/// Raw mouse button flag: middle button went down.
pub const RI_MOUSE_BUTTON_3_DOWN: u16 = 0x0010;
/// Raw mouse button flag: middle button went up.
pub const RI_MOUSE_BUTTON_3_UP: u16 = 0x0020;
/// Raw mouse button flag: fourth button went down.
pub const RI_MOUSE_BUTTON_4_DOWN: u16 = 0x0040;
/// Raw mouse button flag: fourth button went up.
pub const RI_MOUSE_BUTTON_4_UP: u16 = 0x0080;
/// Raw mouse button flag: fifth button went down.
pub const RI_MOUSE_BUTTON_5_DOWN: u16 = 0x0100;
/// Raw mouse button flag: fifth button went up.
pub const RI_MOUSE_BUTTON_5_UP: u16 = 0x0200;
/// Raw mouse button flag: the vertical wheel turned.
pub const RI_MOUSE_WHEEL: u16 = 0x0400;
/// Raw mouse button flag: the horizontal wheel turned.
pub const RI_MOUSE_HWHEEL: u16 = 0x0800;
/// `RI_KEY_BREAK`: the key went up.
pub const RI_KEY_BREAK: u32 = 0x01;
/// Raw keyboard flag: the key has the `E0` prefix.
pub const RI_KEY_E0: u32 = 0x02;
/// Raw keyboard flag: the key has the `E1` prefix.
pub const RI_KEY_E1: u32 = 0x04;

/// A mouse button.
#[derive(Debug, Clone, Copy, PartialEq, Eq, Structural)]
pub enum MouseButton {
    Left,
    Right,
    Middle,
    Button4,
    Button5,
}

/// A mouse event decoded from raw input. Wheel amounts are the raw wheel
/// data; one notch is `WHEEL_DELTA` (120).
#[derive(Debug, Clone, Copy, PartialEq, Eq, Structural)]
pub enum MouseEvent {
    Move { x: i32, y: i32 },
    Press(MouseButton),
    Release(MouseButton),
    /// Vertical wheel rotation.
    Scroll(i16),
    /// Horizontal wheel rotation.
    HorizontalScroll(i16),
}

/// A keyboard event.
#[derive(Debug, Clone, Copy, PartialEq, Eq, Structural)]
pub enum KeyboardEvent {
    Press(HIDScanCode),
    Release(HIDScanCode),
}

/// Information about a raw input device.
#[derive(Debug, Clone, Copy, PartialEq, Eq, Structural)]
pub enum RIDeviceInfo {
    Mouse { id_properties: u32, number_of_buttons: u32, sample_rate: u32, has_horizontal_wheel: bool },
    Keyboard {
        keyboard_type: u32,
        sub_type: u32,
        scan_code_mode: u32,
        number_of_function_keys: u32,
        number_of_indicators: u32,
        number_of_keys: u32,
    },
    GenericHID { vendor_id: u32, product_id: u32, version_number: u32, usage_page: u16, usage: u16 },
}

/// The press or release event of one button, given its down and up flags:
/// a down flag wins over an up flag.
pub open spec fn button_events(flags: u16, down: u16, up: u16, button: MouseButton) -> Seq<MouseEvent> {
    if flags & down != 0 {
        seq![MouseEvent::Press(button)]
    } else if flags & up != 0 {
        seq![MouseEvent::Release(button)]
    } else {
        seq![]
    }
}

/// Wheel rotation events: vertical, then horizontal.
pub open spec fn wheel_events(flags: u16, data: u16) -> Seq<MouseEvent> {
    (if flags & RI_MOUSE_WHEEL != 0 {
        seq![MouseEvent::Scroll(data as i16)]
    } else {
        seq![]
    }) + (if flags & RI_MOUSE_HWHEEL != 0 {
        seq![MouseEvent::HorizontalScroll(data as i16)]
    } else {
        seq![]
    })
}

/// The button and wheel events of the button flags, buttons 1 to 5 first.
pub open spec fn buttons_events(flags: u16, data: u16) -> Seq<MouseEvent> {
    button_events(flags, RI_MOUSE_BUTTON_1_DOWN, RI_MOUSE_BUTTON_1_UP, MouseButton::Left)
        + button_events(flags, RI_MOUSE_BUTTON_2_DOWN, RI_MOUSE_BUTTON_2_UP, MouseButton::Right)
        + button_events(flags, RI_MOUSE_BUTTON_3_DOWN, RI_MOUSE_BUTTON_3_UP, MouseButton::Middle)
        + button_events(flags, RI_MOUSE_BUTTON_4_DOWN, RI_MOUSE_BUTTON_4_UP, MouseButton::Button4)
        + button_events(flags, RI_MOUSE_BUTTON_5_DOWN, RI_MOUSE_BUTTON_5_UP, MouseButton::Button5)
        + wheel_events(flags, data)
}

/// The events in raw relative mouse input: a move when there is motion,
/// then, when any button flag is set, the button and wheel events.
pub open spec fn mouse_events(last_x: i32, last_y: i32, button_flags: u16, button_data: u16) -> Seq<MouseEvent> {
    (if last_x != 0 || last_y != 0 {
        seq![MouseEvent::Move { x: last_x, y: last_y }]
    } else {
        seq![]
    }) + (if button_flags != 0 {
        buttons_events(button_flags, button_data)
    } else {
        seq![]
    })
}

/// The place of a button among the five that raw input reports: left,
/// right, middle, then the fourth and fifth buttons.
pub open spec fn button_index(b: MouseButton) -> nat {
    match b {
        MouseButton::Left => 0,
        MouseButton::Right => 1,
        MouseButton::Middle => 2,
        MouseButton::Button4 => 3,
        MouseButton::Button5 => 4,
    }
}

/// `4` to the power `n`.
pub open spec fn pow4(n: nat) -> nat
    decreases n,
{
    if n == 0 {
        1
    } else {
        4 * pow4((n - 1) as nat)
    }
}

/// The flag bit that reports button `b` going down: the buttons take the
/// flag bits in pairs, down then up, in their order.
pub open spec fn down_bit(b: MouseButton) -> u16 {
    pow4(button_index(b)) as u16
}

/// The flag bit that reports button `b` going up, just above its down bit.
pub open spec fn up_bit(b: MouseButton) -> u16 {
    (2 * pow4(button_index(b))) as u16
}

proof fn lemma_concat_contains<T>(a: Seq<T>, b: Seq<T>, x: T)
    ensures
        (a + b).contains(x) <==> (a.contains(x) || b.contains(x)),
{
    if (a + b).contains(x) {
        let i = choose|i: int| 0 <= i < (a + b).len() && (a + b)[i] == x;
        if i < a.len() {
            assert(a[i] == x);
        } else {
            assert(b[i - a.len()] == x);
        }
    }
    if a.contains(x) {
        let i = choose|i: int| 0 <= i < a.len() && a[i] == x;
        assert((a + b)[i] == x);
    }
    if b.contains(x) {
        let i = choose|i: int| 0 <= i < b.len() && b[i] == x;
        assert((a + b)[a.len() + i] == x);
    }
}

proof fn lemma_button_events_contains(flags: u16, down: u16, up: u16, button: MouseButton, e: MouseEvent)
    ensures
        button_events(flags, down, up, button).contains(e) <==> ((e == MouseEvent::Press(button) && flags & down
            != 0) || (e == MouseEvent::Release(button) && flags & down == 0 && flags & up != 0)),
{
    if flags & down != 0 {
        assert(seq![MouseEvent::Press(button)][0] == MouseEvent::Press(button));
    } else if flags & up != 0 {
        assert(seq![MouseEvent::Release(button)][0] == MouseEvent::Release(button));
    }
}

proof fn lemma_wheel_events_no_button(flags: u16, data: u16, button: MouseButton)
    ensures
        !wheel_events(flags, data).contains(MouseEvent::Press(button)),
        !wheel_events(flags, data).contains(MouseEvent::Release(button)),
{
    let v: Seq<MouseEvent> = if flags & RI_MOUSE_WHEEL != 0 {
        seq![MouseEvent::Scroll(data as i16)]
    } else {
        seq![]
    };
    let h: Seq<MouseEvent> = if flags & RI_MOUSE_HWHEEL != 0 {
        seq![MouseEvent::HorizontalScroll(data as i16)]
    } else {
        seq![]
    };
    lemma_concat_contains(v, h, MouseEvent::Press(button));
    lemma_concat_contains(v, h, MouseEvent::Release(button));
}

/// Raw mouse input reports button `b` pressed exactly when its down bit is
/// set, and released exactly when its up bit is set and its down bit is not,
/// where the buttons left, right, middle, fourth and fifth take the flag
/// bits in pairs in that order.
pub proof fn lemma_button_flags(last_x: i32, last_y: i32, flags: u16, data: u16, b: MouseButton)
    ensures
        mouse_events(last_x, last_y, flags, data).contains(MouseEvent::Press(b)) <==> flags & down_bit(b) != 0,
        mouse_events(last_x, last_y, flags, data).contains(MouseEvent::Release(b)) <==> (flags & down_bit(b) == 0
            && flags & up_bit(b) != 0),
{
    reveal_with_fuel(pow4, 5);
    let moves: Seq<MouseEvent> = if last_x != 0 || last_y != 0 {
        seq![MouseEvent::Move { x: last_x, y: last_y }]
    } else {
        seq![]
    };
    let b1 = button_events(flags, RI_MOUSE_BUTTON_1_DOWN, RI_MOUSE_BUTTON_1_UP, MouseButton::Left);
    let b2 = button_events(flags, RI_MOUSE_BUTTON_2_DOWN, RI_MOUSE_BUTTON_2_UP, MouseButton::Right);
    let b3 = button_events(flags, RI_MOUSE_BUTTON_3_DOWN, RI_MOUSE_BUTTON_3_UP, MouseButton::Middle);
    let b4 = button_events(flags, RI_MOUSE_BUTTON_4_DOWN, RI_MOUSE_BUTTON_4_UP, MouseButton::Button4);
    let b5 = button_events(flags, RI_MOUSE_BUTTON_5_DOWN, RI_MOUSE_BUTTON_5_UP, MouseButton::Button5);
    let w = wheel_events(flags, data);
    let rest: Seq<MouseEvent> = if flags != 0 {
        buttons_events(flags, data)
    } else {
        seq![]
    };
    assert(mouse_events(last_x, last_y, flags, data) == moves + rest);
    assert(flags & down_bit(b) != 0 ==> flags != 0) by {
        let d = down_bit(b);
        assert(flags & d != 0 ==> flags != 0) by (bit_vector);
    }
    assert(flags & up_bit(b) != 0 ==> flags != 0) by {
        let u = up_bit(b);
        assert(flags & u != 0 ==> flags != 0) by (bit_vector);
    }
    lemma_wheel_events_no_button(flags, data, b);
    let es = seq![MouseEvent::Press(b), MouseEvent::Release(b)];
    assert forall|k: int| 0 <= k < 2 implies (mouse_events(last_x, last_y, flags, data).contains(#[trigger] es[k])
        <==> (b1.contains(es[k]) || b2.contains(es[k]) || b3.contains(es[k]) || b4.contains(es[k])
        || b5.contains(es[k])) && flags != 0) by {
        let e = es[k];
        lemma_concat_contains(moves, rest, e);
        if flags != 0 {
            lemma_concat_contains(b1 + b2 + b3 + b4 + b5, w, e);
            lemma_concat_contains(b1 + b2 + b3 + b4, b5, e);
            lemma_concat_contains(b1 + b2 + b3, b4, e);
            lemma_concat_contains(b1 + b2, b3, e);
            lemma_concat_contains(b1, b2, e);
        }
        if moves.len() == 1 {
            assert(moves.contains(e) ==> moves[0] == e);
        }
    }
    assert(es[0] == MouseEvent::Press(b));
    assert(es[1] == MouseEvent::Release(b));
    lemma_button_events_contains(flags, RI_MOUSE_BUTTON_1_DOWN, RI_MOUSE_BUTTON_1_UP, MouseButton::Left, es[0]);
    lemma_button_events_contains(flags, RI_MOUSE_BUTTON_2_DOWN, RI_MOUSE_BUTTON_2_UP, MouseButton::Right, es[0]);
    lemma_button_events_contains(flags, RI_MOUSE_BUTTON_3_DOWN, RI_MOUSE_BUTTON_3_UP, MouseButton::Middle, es[0]);
    lemma_button_events_contains(flags, RI_MOUSE_BUTTON_4_DOWN, RI_MOUSE_BUTTON_4_UP, MouseButton::Button4, es[0]);
    lemma_button_events_contains(flags, RI_MOUSE_BUTTON_5_DOWN, RI_MOUSE_BUTTON_5_UP, MouseButton::Button5, es[0]);
    lemma_button_events_contains(flags, RI_MOUSE_BUTTON_1_DOWN, RI_MOUSE_BUTTON_1_UP, MouseButton::Left, es[1]);
    lemma_button_events_contains(flags, RI_MOUSE_BUTTON_2_DOWN, RI_MOUSE_BUTTON_2_UP, MouseButton::Right, es[1]);
    lemma_button_events_contains(flags, RI_MOUSE_BUTTON_3_DOWN, RI_MOUSE_BUTTON_3_UP, MouseButton::Middle, es[1]);
    lemma_button_events_contains(flags, RI_MOUSE_BUTTON_4_DOWN, RI_MOUSE_BUTTON_4_UP, MouseButton::Button4, es[1]);
    lemma_button_events_contains(flags, RI_MOUSE_BUTTON_5_DOWN, RI_MOUSE_BUTTON_5_UP, MouseButton::Button5, es[1]);
}

/// Raw mouse input reports a vertical scroll exactly when the wheel flag is
/// set and a horizontal scroll exactly when the horizontal wheel flag is
/// set, each by the raw wheel data, and no other amount.
pub proof fn lemma_wheel_flags(last_x: i32, last_y: i32, flags: u16, data: u16, amount: i16)
    ensures
        mouse_events(last_x, last_y, flags, data).contains(MouseEvent::Scroll(amount)) <==> (flags & RI_MOUSE_WHEEL
            != 0 && amount == data as i16),
        mouse_events(last_x, last_y, flags, data).contains(MouseEvent::HorizontalScroll(amount)) <==> (flags
            & RI_MOUSE_HWHEEL != 0 && amount == data as i16),
{
    let moves: Seq<MouseEvent> = if last_x != 0 || last_y != 0 {
        seq![MouseEvent::Move { x: last_x, y: last_y }]
    } else {
        seq![]
    };
    let b1 = button_events(flags, RI_MOUSE_BUTTON_1_DOWN, RI_MOUSE_BUTTON_1_UP, MouseButton::Left);
    let b2 = button_events(flags, RI_MOUSE_BUTTON_2_DOWN, RI_MOUSE_BUTTON_2_UP, MouseButton::Right);
    let b3 = button_events(flags, RI_MOUSE_BUTTON_3_DOWN, RI_MOUSE_BUTTON_3_UP, MouseButton::Middle);
    let b4 = button_events(flags, RI_MOUSE_BUTTON_4_DOWN, RI_MOUSE_BUTTON_4_UP, MouseButton::Button4);
    let b5 = button_events(flags, RI_MOUSE_BUTTON_5_DOWN, RI_MOUSE_BUTTON_5_UP, MouseButton::Button5);
    let vw: Seq<MouseEvent> = if flags & RI_MOUSE_WHEEL != 0 {
        seq![MouseEvent::Scroll(data as i16)]
    } else {
        seq![]
    };
    let hw: Seq<MouseEvent> = if flags & RI_MOUSE_HWHEEL != 0 {
        seq![MouseEvent::HorizontalScroll(data as i16)]
    } else {
        seq![]
    };
    let rest: Seq<MouseEvent> = if flags != 0 {
        buttons_events(flags, data)
    } else {
        seq![]
    };
    assert(mouse_events(last_x, last_y, flags, data) == moves + rest);
    assert(flags & RI_MOUSE_WHEEL != 0 ==> flags != 0) by (bit_vector);
    assert(flags & RI_MOUSE_HWHEEL != 0 ==> flags != 0) by (bit_vector);
    let es = seq![MouseEvent::Scroll(amount), MouseEvent::HorizontalScroll(amount)];
    assert forall|k: int| 0 <= k < 2 implies (mouse_events(last_x, last_y, flags, data).contains(#[trigger] es[k])
        <==> (vw.contains(es[k]) || hw.contains(es[k])) && flags != 0) by {
        let e = es[k];
        lemma_concat_contains(moves, rest, e);
        if flags != 0 {
            assert(wheel_events(flags, data) == vw + hw);
            lemma_concat_contains(b1 + b2 + b3 + b4 + b5, vw + hw, e);
            lemma_concat_contains(vw, hw, e);
            lemma_concat_contains(b1 + b2 + b3 + b4, b5, e);
            lemma_concat_contains(b1 + b2 + b3, b4, e);
            lemma_concat_contains(b1 + b2, b3, e);
            lemma_concat_contains(b1, b2, e);
            lemma_button_events_contains(flags, RI_MOUSE_BUTTON_1_DOWN, RI_MOUSE_BUTTON_1_UP, MouseButton::Left, e);
            lemma_button_events_contains(flags, RI_MOUSE_BUTTON_2_DOWN, RI_MOUSE_BUTTON_2_UP, MouseButton::Right, e);
            lemma_button_events_contains(flags, RI_MOUSE_BUTTON_3_DOWN, RI_MOUSE_BUTTON_3_UP, MouseButton::Middle, e);
            lemma_button_events_contains(flags, RI_MOUSE_BUTTON_4_DOWN, RI_MOUSE_BUTTON_4_UP, MouseButton::Button4, e);
            lemma_button_events_contains(flags, RI_MOUSE_BUTTON_5_DOWN, RI_MOUSE_BUTTON_5_UP, MouseButton::Button5, e);
        }
        if moves.len() == 1 {
            assert(moves.contains(e) ==> moves[0] == e);
        }
    }
    assert(es[0] == MouseEvent::Scroll(amount));
    assert(es[1] == MouseEvent::HorizontalScroll(amount));
    if flags & RI_MOUSE_WHEEL != 0 {
        assert(vw[0] == MouseEvent::Scroll(data as i16));
    }
    if flags & RI_MOUSE_HWHEEL != 0 {
        assert(hw[0] == MouseEvent::HorizontalScroll(data as i16));
    }
}

fn push_button_event(events: &mut Vec<MouseEvent>, flags: u16, down: u16, up: u16, button: MouseButton)
    ensures
        final(events)@ == old(events)@ + button_events(flags, down, up, button),
{
    if flags & down != 0 {
        events.push(MouseEvent::Press(button));
    } else if flags & up != 0 {
        events.push(MouseEvent::Release(button));
    }
    assert(final(events)@ =~= old(events)@ + button_events(flags, down, up, button));
}

fn push_wheel_events(events: &mut Vec<MouseEvent>, flags: u16, data: u16)
    ensures
        final(events)@ == old(events)@ + wheel_events(flags, data),
{
    let ghost e0 = events@;
    if flags & RI_MOUSE_WHEEL != 0 {
        events.push(MouseEvent::Scroll(data as i16));
    }
    let ghost e1 = events@;
    if flags & RI_MOUSE_HWHEEL != 0 {
        events.push(MouseEvent::HorizontalScroll(data as i16));
    }
    assert(events@ =~= e0 + wheel_events(flags, data));
}

fn push_buttons_events(events: &mut Vec<MouseEvent>, flags: u16, data: u16)
    ensures
        final(events)@ == old(events)@ + buttons_events(flags, data),
{
    let ghost e0 = events@;
    push_button_event(events, flags, RI_MOUSE_BUTTON_1_DOWN, RI_MOUSE_BUTTON_1_UP, MouseButton::Left);
    push_button_event(events, flags, RI_MOUSE_BUTTON_2_DOWN, RI_MOUSE_BUTTON_2_UP, MouseButton::Right);
    push_button_event(events, flags, RI_MOUSE_BUTTON_3_DOWN, RI_MOUSE_BUTTON_3_UP, MouseButton::Middle);
    push_button_event(events, flags, RI_MOUSE_BUTTON_4_DOWN, RI_MOUSE_BUTTON_4_UP, MouseButton::Button4);
    push_button_event(events, flags, RI_MOUSE_BUTTON_5_DOWN, RI_MOUSE_BUTTON_5_UP, MouseButton::Button5);
    push_wheel_events(events, flags, data);
    assert(events@ =~= e0 + buttons_events(flags, data));
}

/// Decodes raw mouse input (relative motion only) into mouse events.
pub fn process_mouse(us_flags: u16, last_x: i32, last_y: i32, button_flags: u16, button_data: u16) -> (r: Vec<MouseEvent>)
    requires
        us_flags & MOUSE_MOVE_ABSOLUTE == 0,
    ensures
        r@ == mouse_events(last_x, last_y, button_flags, button_data),
{
    let mut events: Vec<MouseEvent> = Vec::new();
    if last_x != 0 || last_y != 0 {
        events.push(MouseEvent::Move { x: last_x, y: last_y });
    }
    let ghost moves = events@;
    if button_flags != 0 {
        push_buttons_events(&mut events, button_flags, button_data);
    }
    assert(events@ =~= mouse_events(last_x, last_y, button_flags, button_data));
    events
}

/// The device type path suffix announced for a raw input device.
pub fn ri_device_type(info: &RIDeviceInfo) -> (r: &'static str)
    requires
        !(info is GenericHID),
    ensures
        info is Mouse ==> r@ == "standard_mouse/mouse"@,
        info is Keyboard ==> r@ == "standard_keyboard/keyboard"@,
{
    match info {
        RIDeviceInfo::Mouse { .. } => "standard_mouse/mouse",
        _ => "standard_keyboard/keyboard",
    }
}

/// The key state bits of raw keyboard flags: whether the key went down, and
/// the `E0` and `E1` prefixes.
pub fn key_flags(flags: u32) -> (r: (bool, bool, bool))
    ensures
        r == ((flags & RI_KEY_BREAK) == 0, (flags & RI_KEY_E0) != 0, (flags & RI_KEY_E1) != 0),
{
    ((flags & RI_KEY_BREAK) == 0, (flags & RI_KEY_E0) != 0, (flags & RI_KEY_E1) != 0)
}

/// The keys of each keyboard that have been seen going down.
pub struct KeyboardStates {
    pressed: Vec<(isize, HIDScanCode)>,
}

impl KeyboardStates {
    /// The (keyboard, key) pairs seen going down.
    pub closed spec fn keys(self) -> Set<(isize, HIDScanCode)> {
        self.pressed@.to_set()
    }

    /// No key seen yet.
    pub fn new() -> (r: Self)
        ensures
            r.keys() == Set::<(isize, HIDScanCode)>::empty(),
    {
        let r = KeyboardStates { pressed: Vec::new() };
        assert(r.keys() =~= Set::<(isize, HIDScanCode)>::empty());
        r
    }

    /// A key going down on `device` is recorded and reported once; a key
    /// going up is reported and the record is kept.
    pub fn on_key(&mut self, device: isize, code: HIDScanCode, pressed: bool) -> (r: Option<KeyboardEvent>)
        ensures
            pressed ==> final(self).keys() == old(self).keys().insert((device, code)),
            pressed ==> r == if old(self).keys().contains((device, code)) {
                None::<KeyboardEvent>
            } else {
                Some(KeyboardEvent::Press(code))
            },
            !pressed ==> final(self).keys() == old(self).keys() && r == Some(KeyboardEvent::Release(code)),
    {
        if pressed {
            let mut i: usize = 0;
            while i < self.pressed.len()
                invariant
                    pressed,
                    0 <= i <= self.pressed@.len(),
                    self.pressed@ == old(self).pressed@,
                    forall|j: int| 0 <= j < i ==> self.pressed@[j] != (device, code),
                decreases self.pressed@.len() - i,
            {
                let (d, c) = self.pressed[i];
                if d == device && c == code {
                    assert(self.pressed@[i as int] == (device, code));
                    assert(self.keys() =~= old(self).keys().insert((device, code)));
                    return None;
                }
                i = i + 1;
            }
            assert(!self.pressed@.contains((device, code)));
            self.pressed.push((device, code));
            assert(self.pressed@.to_set() =~= old(self).pressed@.to_set().insert((device, code))) by {
                assert forall|x| #[trigger] self.pressed@.contains(x) <==> (old(self).pressed@.contains(x) || x == (device, code)) by {
                    if old(self).pressed@.contains(x) {
                        let k = choose|k: int| 0 <= k < old(self).pressed@.len() && old(self).pressed@[k] == x;
                        assert(self.pressed@[k] == x);
                    }
                    if x == (device, code) {
                        assert(self.pressed@[self.pressed@.len() - 1] == x);
                    }
                }
            }
            Some(KeyboardEvent::Press(code))
        } else {
            Some(KeyboardEvent::Release(code))
        }
    }
}

/// What the bookkeeping of raw input devices announces.
#[derive(Debug, Clone, Copy, PartialEq, Eq, Structural)]
pub enum DeviceChange {
    Activated { device: isize, info: RIDeviceInfo },
    Deactivated { device: isize },
}

/// The handles of a list of devices, in order.
pub open spec fn device_handles(s: Seq<(isize, RIDeviceInfo)>) -> Seq<isize> {
    s.map_values(|e: (isize, RIDeviceInfo)| e.0)
}

/// The raw input devices that have been announced, by handle.
pub struct RawInputDevices {
    devices: Vec<(isize, RIDeviceInfo)>,
}

impl RawInputDevices {
    /// Each handle is recorded once.
    pub closed spec fn wf(self) -> bool {
        device_handles(self.devices@).no_duplicates()
    }

    /// The recorded devices, each handle with its information.
    pub closed spec fn known(self) -> Map<isize, RIDeviceInfo> {
        Map::new(
            |k: isize| device_handles(self.devices@).contains(k),
            |k: isize| self.devices@[device_handles(self.devices@).index_of(k)].1,
        )
    }

    /// No device recorded.
    pub fn new() -> (r: Self)
        ensures
            r.wf(),
            r.known() == Map::<isize, RIDeviceInfo>::empty(),
    {
        let r = RawInputDevices { devices: Vec::new() };
        assert(r.known() =~= Map::<isize, RIDeviceInfo>::empty());
        r
    }

    /// Where `device` is recorded, if it is.
    fn position(&self, device: isize) -> (r: Option<usize>)
        requires
            self.wf(),
        ensures
            match r {
                Some(i) => i < self.devices@.len() && self.devices@[i as int].0 == device,
                None => !self.known().contains_key(device),
            },
    {
        let mut i: usize = 0;
        while i < self.devices.len()
            invariant
                0 <= i <= self.devices@.len(),
                forall|j: int| 0 <= j < i ==> self.devices@[j].0 != device,
            decreases self.devices@.len() - i,
        {
            if self.devices[i].0 == device {
                return Some(i);
            }
            i = i + 1;
        }
        assert(!device_handles(self.devices@).contains(device)) by {
            if device_handles(self.devices@).contains(device) {
                let j = choose|j: int| 0 <= j < device_handles(self.devices@).len() && device_handles(self.devices@)[j] == device;
                assert(self.devices@[j].0 == device);
            }
        }
        None
    }

    /// Whether `device` is recorded.
    pub fn contains(&self, device: isize) -> (r: bool)
        requires
            self.wf(),
        ensures
            r == self.known().contains_key(device),
    {
        match self.position(device) {
            Some(i) => {
                assert(device_handles(self.devices@)[i as int] == device);
                true
            },
            None => false,
        }
    }

    /// Records `device` with `info` in place of what was recorded for it.
    fn record(&mut self, device: isize, info: RIDeviceInfo)
        requires
            old(self).wf(),
        ensures
            final(self).wf(),
            final(self).known() == old(self).known().insert(device, info),
    {
        let ghost hs = device_handles(self.devices@);
        match self.position(device) {
            Some(i) => {
                self.devices.set(i, (device, info));
                assert(device_handles(self.devices@) =~= hs);
                assert(hs[i as int] == device);
                assert forall|k: isize| hs.contains(k) implies #[trigger] self.known()[k] == old(self).known().insert(device, info)[k] by {
                    let j = hs.index_of(k);
                    assert(hs[j] == k);
                    if k == device {
                        assert(j == i);
                    }
                }
                assert(self.known() =~= old(self).known().insert(device, info));
            },
            None => {
                self.devices.push((device, info));
                let ghost nhs = device_handles(self.devices@);
                assert(nhs =~= hs.push(device));
                assert(nhs.no_duplicates()) by {
                    assert forall|a: int, b: int| 0 <= a < nhs.len() && 0 <= b < nhs.len() && a != b implies nhs[a] != nhs[b] by {
                        if a == hs.len() {
                            assert(hs[b] == nhs[b]);
                        }
                        if b == hs.len() {
                            assert(hs[a] == nhs[a]);
                        }
                    }
                }
                assert forall|k: isize| nhs.contains(k) implies #[trigger] self.known()[k] == old(self).known().insert(device, info)[k] by {
                    let j = nhs.index_of(k);
                    assert(nhs[j] == k);
                    if k == device {
                        assert(nhs[hs.len() as int] == device);
                        assert(j == hs.len());
                    } else {
                        assert(j < hs.len());
                        assert(hs[j] == k);
                        assert(hs.contains(k));
                        let oj = hs.index_of(k);
                        assert(hs[oj] == k);
                        assert(oj == j);
                    }
                }
                assert forall|k: isize| nhs.contains(k) <==> (hs.contains(k) || k == device) by {
                    if hs.contains(k) {
                        let j = choose|j: int| 0 <= j < hs.len() && hs[j] == k;
                        assert(nhs[j] == k);
                    }
                    if k == device {
                        assert(nhs[hs.len() as int] == k);
                    }
                }
                assert(self.known() =~= old(self).known().insert(device, info));
            },
        }
    }

    /// A device that arrived is recorded and announced. Arrival of a
    /// generic HID device is not handled.
    pub fn on_arrival(&mut self, device: isize, info: RIDeviceInfo) -> (r: DeviceChange)
        requires
            old(self).wf(),
            !(info is GenericHID),
        ensures
            final(self).wf(),
            final(self).known() == old(self).known().insert(device, info),
            r == (DeviceChange::Activated { device, info }),
    {
        self.record(device, info);
        DeviceChange::Activated { device, info }
    }

    /// A recorded device that left is forgotten and its departure announced.
    pub fn on_departure(&mut self, device: isize) -> (r: DeviceChange)
        requires
            old(self).wf(),
            old(self).known().contains_key(device),
        ensures
            final(self).wf(),
            final(self).known() == old(self).known().remove(device),
            r == (DeviceChange::Deactivated { device }),
    {
        let ghost hs = device_handles(self.devices@);
        match self.position(device) {
            Some(i) => {
                self.devices.remove(i);
                let ghost nhs = device_handles(self.devices@);
                assert(nhs =~= hs.remove(i as int));
                assert(hs[i as int] == device);
                assert forall|a: int, b: int| 0 <= a < nhs.len() && 0 <= b < nhs.len() && a != b implies nhs[a] != nhs[b] by {
                    let oa = if a < i { a } else { a + 1 };
                    let ob = if b < i { b } else { b + 1 };
                    assert(nhs[a] == hs[oa]);
                    assert(nhs[b] == hs[ob]);
                }
                assert forall|k: isize| nhs.contains(k) <==> (hs.contains(k) && k != device) by {
                    if nhs.contains(k) {
                        let j = choose|j: int| 0 <= j < nhs.len() && nhs[j] == k;
                        let oj = if j < i { j } else { j + 1 };
                        assert(hs[oj] == k);
                        assert(oj != i);
                    }
                    if hs.contains(k) && k != device {
                        let j = choose|j: int| 0 <= j < hs.len() && hs[j] == k;
                        assert(j != i);
                        let nj = if j < i { j } else { j - 1 };
                        assert(nhs[nj] == k);
                    }
                }
                assert forall|k: isize| nhs.contains(k) implies #[trigger] self.known()[k] == old(self).known()[k] by {
                    let j = nhs.index_of(k);
                    assert(nhs[j] == k);
                    let oj = if j < i { j } else { j + 1 };
                    assert(hs[oj] == k);
                    let ok = hs.index_of(k);
                    assert(hs[ok] == k);
                    assert(ok == oj);
                }
                assert(self.known() =~= old(self).known().remove(device));
            },
            None => {},
        }
        DeviceChange::Deactivated { device }
    }

    /// Input from a device that was never announced (handle other than 0)
    /// records and announces it first; `info` is consulted only then.
    pub fn on_input(&mut self, device: isize, info: RIDeviceInfo) -> (r: Option<DeviceChange>)
        requires
            old(self).wf(),
        ensures
            final(self).wf(),
            (device != 0 && !old(self).known().contains_key(device)) ==> (final(self).known()
                == old(self).known().insert(device, info) && r == Some(DeviceChange::Activated { device, info })),
            !(device != 0 && !old(self).known().contains_key(device)) ==> (final(self).known()
                == old(self).known() && r == None::<DeviceChange>),
    {
        if device != 0 && !self.contains(device) {
            self.record(device, info);
            Some(DeviceChange::Activated { device, info })
        } else {
            None
        }
    }
}

/// The name logged for a keyboard message.
pub fn message_name(message: u32) -> (r: &'static str)
    ensures
        message == 0x0006 ==> r@ == "WM_ACTIVATE"@,
        message == 0x0319 ==> r@ == "WM_APPCOMMAND"@,
        (message == 0x0102 || message == 0x0103 || message == 0x0312 || message == 0x0100
            || message == 0x0101 || message == 0x0008 || message == 0x0007 || message == 0x0107
            || message == 0x0104 || message == 0x0105 || message == 0x0109) ==> r@ == "WM_CHAR"@,
        !(message == 0x0006 || message == 0x0319 || message == 0x0102 || message == 0x0103
            || message == 0x0312 || message == 0x0100 || message == 0x0101 || message == 0x0008
            || message == 0x0007 || message == 0x0107 || message == 0x0104 || message == 0x0105
            || message == 0x0109) ==> r@ == "Unknown"@,
{
    match message {
        0x0006 => "WM_ACTIVATE",
        0x0319 => "WM_APPCOMMAND",
        0x0102 | 0x0103 | 0x0312 | 0x0100 | 0x0101 | 0x0008 | 0x0007 | 0x0107 | 0x0104 | 0x0105
        | 0x0109 => "WM_CHAR",
        _ => "Unknown",
    }
}

} // verus!
