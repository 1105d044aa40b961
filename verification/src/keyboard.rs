use vstd::prelude::*;

verus! {

/// HID keyboard usages (scan codes).
#[derive(Debug, Clone, Copy, PartialEq, Eq, Hash, Structural)]
pub enum HIDScanCode {
    KeypadEnter,
    RightControl,
    KeypadDivide,
    PrintScreen,
    RightAlt,
    Pause,
    Home,
    Up,
    PageUp,
    Left,
    Right,
    End,
    Down,
    PageDown,
    Insert,
    Delete,
    LeftGui,
    RightGui,
    App,
    Escape,
    Key1,
    Key2,
    Key3,
    Key4,
    Key5,
    Key6,
    Key7,
    Key8,
    Key9,
    Key0,
    Minus,
    Equals,
    Backspace,
    Tab,
    Q,
    W,
    E,
    R,
    T,
    Y,
    U,
    I,
    O,
    P,
    LeftBracket,
    RightBracket,
    Enter,
    LeftControl,
    A,
    S,
    D,
    F,
    G,
    H,
    J,
    K,
    L,
    Semicolon,
    Apostrophe,
    Grave,
    LeftShift,
    Backslash,
    Z,
    X,
    C,
    V,
    B,
    N,
    M,
    Comma,
    Period,
    ForwardSlash,
    RightShift,
    KeypadMultiply,
    LeftAlt,
    Space,
    CapsLock,
    F1,
    F2,
    F3,
    F4,
    F5,
    F6,
    F7,
    F8,
    F9,
    F10,
    KeypadNumLock,
    ScrollLock,
    Keypad7,
    Keypad8,
    Keypad9,
    KeypadMinus,
    Keypad4,
    Keypad5,
    Keypad6,
    KeypadPlus,
    Keypad1,
    Keypad2,
    Keypad3,
    Keypad0,
    KeypadDecimal,
    NonUSHash,
    F11,
    F12,
    KeypadEquals,
    International6,
    Help,
    F13,
    F14,
    F15,
    F16,
    F17,
    F18,
    F19,
    F20,
    F21,
    F22,
    F23,
    International2,
    LANG2,
    LANG1,
    International1,
    LANG5,
    LANG4,
    LANG3,
    International4,
    International5,
    International3,
    KeypadComma,
}

/// A Windows error code.
#[derive(Debug, Clone, Copy, PartialEq, Eq, Structural)]
pub enum Error {
    Win32(u32),
}

/// The `VK_CONTROL` virtual key code.
pub const VK_CONTROL: u16 = 0x11;

/// The scan code that an extended (`E0`-prefixed) make code stands for:
/// `Some(None)` for the fake shift keys, `None` for make codes outside the
/// table.
pub open spec fn e0_scancode(make_code: u16) -> Option<Option<HIDScanCode>> {
    match make_code {
        0x1C => Some(Some(HIDScanCode::KeypadEnter)),
        0x1D => Some(Some(HIDScanCode::RightControl)),
        0x2A => Some(None),
        0x35 => Some(Some(HIDScanCode::KeypadDivide)),
        0x36 => Some(None),
        0x37 => Some(Some(HIDScanCode::PrintScreen)),
        0x38 => Some(Some(HIDScanCode::RightAlt)),
        0x46 => Some(Some(HIDScanCode::Pause)),
        0x47 => Some(Some(HIDScanCode::Home)),
        0x48 => Some(Some(HIDScanCode::Up)),
        0x49 => Some(Some(HIDScanCode::PageUp)),
        0x4B => Some(Some(HIDScanCode::Left)),
        0x4D => Some(Some(HIDScanCode::Right)),
        0x4F => Some(Some(HIDScanCode::End)),
        0x50 => Some(Some(HIDScanCode::Down)),
        0x51 => Some(Some(HIDScanCode::PageDown)),
        0x52 => Some(Some(HIDScanCode::Insert)),
        0x53 => Some(Some(HIDScanCode::Delete)),
        0x5B => Some(Some(HIDScanCode::LeftGui)),
        0x5C => Some(Some(HIDScanCode::RightGui)),
        0x5D => Some(Some(HIDScanCode::App)),
        _ => None,
    }
}

/// The scan code that a plain make code stands for; `None` for make codes
/// outside the table.
pub open spec fn plain_scancode(make_code: u16) -> Option<Option<HIDScanCode>> {
    match make_code {
        0x01 => Some(Some(HIDScanCode::Escape)),
        0x02 => Some(Some(HIDScanCode::Key1)),
        0x03 => Some(Some(HIDScanCode::Key2)),
        0x04 => Some(Some(HIDScanCode::Key3)),
        0x05 => Some(Some(HIDScanCode::Key4)),
        0x06 => Some(Some(HIDScanCode::Key5)),
        0x07 => Some(Some(HIDScanCode::Key6)),
        0x08 => Some(Some(HIDScanCode::Key7)),
        0x09 => Some(Some(HIDScanCode::Key8)),
        0x0A => Some(Some(HIDScanCode::Key9)),
        0x0B => Some(Some(HIDScanCode::Key0)),
        0x0C => Some(Some(HIDScanCode::Minus)),
        0x0D => Some(Some(HIDScanCode::Equals)),
        0x0E => Some(Some(HIDScanCode::Backspace)),
        0x0F => Some(Some(HIDScanCode::Tab)),
        0x10 => Some(Some(HIDScanCode::Q)),
        0x11 => Some(Some(HIDScanCode::W)),
        0x12 => Some(Some(HIDScanCode::E)),
        0x13 => Some(Some(HIDScanCode::R)),
        0x14 => Some(Some(HIDScanCode::T)),
        0x15 => Some(Some(HIDScanCode::Y)),
        0x16 => Some(Some(HIDScanCode::U)),
        0x17 => Some(Some(HIDScanCode::I)),
        0x18 => Some(Some(HIDScanCode::O)),
        0x19 => Some(Some(HIDScanCode::P)),
        0x1A => Some(Some(HIDScanCode::LeftBracket)),
        0x1B => Some(Some(HIDScanCode::RightBracket)),
        0x1C => Some(Some(HIDScanCode::Enter)),
        0x1D => Some(Some(HIDScanCode::LeftControl)),
        0x1E => Some(Some(HIDScanCode::A)),
        0x1F => Some(Some(HIDScanCode::S)),
        0x20 => Some(Some(HIDScanCode::D)),
        0x21 => Some(Some(HIDScanCode::F)),
        0x22 => Some(Some(HIDScanCode::G)),
        0x23 => Some(Some(HIDScanCode::H)),
        0x24 => Some(Some(HIDScanCode::J)),
        0x25 => Some(Some(HIDScanCode::K)),
        0x26 => Some(Some(HIDScanCode::L)),
        0x27 => Some(Some(HIDScanCode::Semicolon)),
        0x28 => Some(Some(HIDScanCode::Apostrophe)),
        0x29 => Some(Some(HIDScanCode::Grave)),
        0x2A => Some(Some(HIDScanCode::LeftShift)),
        0x2B => Some(Some(HIDScanCode::Backslash)),
        0x2C => Some(Some(HIDScanCode::Z)),
        0x2D => Some(Some(HIDScanCode::X)),
        0x2E => Some(Some(HIDScanCode::C)),
        0x2F => Some(Some(HIDScanCode::V)),
        0x30 => Some(Some(HIDScanCode::B)),
        0x31 => Some(Some(HIDScanCode::N)),
        0x32 => Some(Some(HIDScanCode::M)),
        0x33 => Some(Some(HIDScanCode::Comma)),
        0x34 => Some(Some(HIDScanCode::Period)),
        0x35 => Some(Some(HIDScanCode::ForwardSlash)),
        0x36 => Some(Some(HIDScanCode::RightShift)),
        0x37 => Some(Some(HIDScanCode::KeypadMultiply)),
        0x38 => Some(Some(HIDScanCode::LeftAlt)),
        0x39 => Some(Some(HIDScanCode::Space)),
        0x3A => Some(Some(HIDScanCode::CapsLock)),
        0x3B => Some(Some(HIDScanCode::F1)),
        0x3C => Some(Some(HIDScanCode::F2)),
        0x3D => Some(Some(HIDScanCode::F3)),
        0x3E => Some(Some(HIDScanCode::F4)),
        0x3F => Some(Some(HIDScanCode::F5)),
        0x40 => Some(Some(HIDScanCode::F6)),
        0x41 => Some(Some(HIDScanCode::F7)),
        0x42 => Some(Some(HIDScanCode::F8)),
        0x43 => Some(Some(HIDScanCode::F9)),
        0x44 => Some(Some(HIDScanCode::F10)),
        0x45 => Some(Some(HIDScanCode::KeypadNumLock)),
        0x46 => Some(Some(HIDScanCode::ScrollLock)),
        0x47 => Some(Some(HIDScanCode::Keypad7)),
        0x48 => Some(Some(HIDScanCode::Keypad8)),
        0x49 => Some(Some(HIDScanCode::Keypad9)),
        0x4A => Some(Some(HIDScanCode::KeypadMinus)),
        0x4B => Some(Some(HIDScanCode::Keypad4)),
        0x4C => Some(Some(HIDScanCode::Keypad5)),
        0x4D => Some(Some(HIDScanCode::Keypad6)),
        0x4E => Some(Some(HIDScanCode::KeypadPlus)),
        0x4F => Some(Some(HIDScanCode::Keypad1)),
        0x50 => Some(Some(HIDScanCode::Keypad2)),
        0x51 => Some(Some(HIDScanCode::Keypad3)),
        0x52 => Some(Some(HIDScanCode::Keypad0)),
        0x53 => Some(Some(HIDScanCode::KeypadDecimal)),
        0x54 => Some(Some(HIDScanCode::PrintScreen)),
        0x56 => Some(Some(HIDScanCode::NonUSHash)),
        0x57 => Some(Some(HIDScanCode::F11)),
        0x58 => Some(Some(HIDScanCode::F12)),
        0x59 => Some(Some(HIDScanCode::KeypadEquals)),
        0x5C => Some(Some(HIDScanCode::International6)),
        0x63 => Some(Some(HIDScanCode::Help)),
        0x64 => Some(Some(HIDScanCode::F13)),
        0x65 => Some(Some(HIDScanCode::F14)),
        0x66 => Some(Some(HIDScanCode::F15)),
        0x67 => Some(Some(HIDScanCode::F16)),
        0x68 => Some(Some(HIDScanCode::F17)),
        0x69 => Some(Some(HIDScanCode::F18)),
        0x6A => Some(Some(HIDScanCode::F19)),
        0x6B => Some(Some(HIDScanCode::F20)),
        0x6C => Some(Some(HIDScanCode::F21)),
        0x6D => Some(Some(HIDScanCode::F22)),
        0x6E => Some(Some(HIDScanCode::F23)),
        0x70 => Some(Some(HIDScanCode::International2)),
        0x71 => Some(Some(HIDScanCode::LANG2)),
        0x72 => Some(Some(HIDScanCode::LANG1)),
        0x73 => Some(Some(HIDScanCode::International1)),
        0x76 => Some(Some(HIDScanCode::LANG5)),
        0x77 => Some(Some(HIDScanCode::LANG4)),
        0x78 => Some(Some(HIDScanCode::LANG3)),
        0x79 => Some(Some(HIDScanCode::International4)),
        0x7B => Some(Some(HIDScanCode::International5)),
        0x7C => Some(Some(HIDScanCode::Tab)),
        0x7D => Some(Some(HIDScanCode::International3)),
        0x7E => Some(Some(HIDScanCode::KeypadComma)),
        0xF1 => Some(Some(HIDScanCode::LANG2)),
        0xF2 => Some(Some(HIDScanCode::LANG1)),
        _ => None,
    }
}

/// The table lookup for a make code and its `E0` flag.
pub open spec fn scancode_lookup(make_code: u16, e0: bool) -> Option<Option<HIDScanCode>> {
    if e0 {
        e0_scancode(make_code)
    } else {
        plain_scancode(make_code)
    }
}

/// Raw input that `raw_input_to_hid_scancode` handles: a fake key (make code
/// 0) or a make code of the table.
pub open spec fn known_make_code(make_code: u16, e0: bool) -> bool {
    make_code == 0 || scancode_lookup(make_code, e0) is Some
}

/// The scan code of a raw keyboard input, if it is a real key press.
pub open spec fn spec_raw_input_to_hid_scancode(make_code: u16, e0: bool, v_key: u16, e1: bool) -> Option<HIDScanCode> {
    if make_code == 0 {
        None
    } else {
        match scancode_lookup(make_code, e0)->0 {
            None => None,
            Some(code) => {
                if code == HIDScanCode::RightAlt && v_key == VK_CONTROL {
                    // Alt Gr also sends a simulated control key
                    None
                } else if code == HIDScanCode::LeftControl && e1 {
                    // Pause sends E1 + control
                    Some(HIDScanCode::Pause)
                } else if code == HIDScanCode::KeypadNumLock && v_key == 0xFF {
                    None
                } else {
                    Some(code)
                }
            },
        }
    }
}

fn e0_scancode_exec(make_code: u16) -> (r: Option<Option<HIDScanCode>>)
    ensures
        r == e0_scancode(make_code),
{
    match make_code {
            0x1C => Some(Some(HIDScanCode::KeypadEnter)),
            0x1D => Some(Some(HIDScanCode::RightControl)),
            0x2A => Some(None),
            0x35 => Some(Some(HIDScanCode::KeypadDivide)),
            0x36 => Some(None),
            0x37 => Some(Some(HIDScanCode::PrintScreen)),
            0x38 => Some(Some(HIDScanCode::RightAlt)),
            0x46 => Some(Some(HIDScanCode::Pause)),
            0x47 => Some(Some(HIDScanCode::Home)),
            0x48 => Some(Some(HIDScanCode::Up)),
            0x49 => Some(Some(HIDScanCode::PageUp)),
            0x4B => Some(Some(HIDScanCode::Left)),
            0x4D => Some(Some(HIDScanCode::Right)),
            0x4F => Some(Some(HIDScanCode::End)),
            0x50 => Some(Some(HIDScanCode::Down)),
            0x51 => Some(Some(HIDScanCode::PageDown)),
            0x52 => Some(Some(HIDScanCode::Insert)),
            0x53 => Some(Some(HIDScanCode::Delete)),
            0x5B => Some(Some(HIDScanCode::LeftGui)),
            0x5C => Some(Some(HIDScanCode::RightGui)),
            0x5D => Some(Some(HIDScanCode::App)),
            _ => None,
    }
}

fn plain_scancode_exec(make_code: u16) -> (r: Option<Option<HIDScanCode>>)
    ensures
        r == plain_scancode(make_code),
{
    match make_code {
            0x01 => Some(Some(HIDScanCode::Escape)),
            0x02 => Some(Some(HIDScanCode::Key1)),
            0x03 => Some(Some(HIDScanCode::Key2)),
            0x04 => Some(Some(HIDScanCode::Key3)),
            0x05 => Some(Some(HIDScanCode::Key4)),
            0x06 => Some(Some(HIDScanCode::Key5)),
            0x07 => Some(Some(HIDScanCode::Key6)),
            0x08 => Some(Some(HIDScanCode::Key7)),
            0x09 => Some(Some(HIDScanCode::Key8)),
            0x0A => Some(Some(HIDScanCode::Key9)),
            0x0B => Some(Some(HIDScanCode::Key0)),
            0x0C => Some(Some(HIDScanCode::Minus)),
            0x0D => Some(Some(HIDScanCode::Equals)),
            0x0E => Some(Some(HIDScanCode::Backspace)),
            0x0F => Some(Some(HIDScanCode::Tab)),
            0x10 => Some(Some(HIDScanCode::Q)),
            0x11 => Some(Some(HIDScanCode::W)),
            0x12 => Some(Some(HIDScanCode::E)),
            0x13 => Some(Some(HIDScanCode::R)),
            0x14 => Some(Some(HIDScanCode::T)),
            0x15 => Some(Some(HIDScanCode::Y)),
            0x16 => Some(Some(HIDScanCode::U)),
            0x17 => Some(Some(HIDScanCode::I)),
            0x18 => Some(Some(HIDScanCode::O)),
            0x19 => Some(Some(HIDScanCode::P)),
            0x1A => Some(Some(HIDScanCode::LeftBracket)),
            0x1B => Some(Some(HIDScanCode::RightBracket)),
            0x1C => Some(Some(HIDScanCode::Enter)),
            0x1D => Some(Some(HIDScanCode::LeftControl)),
            0x1E => Some(Some(HIDScanCode::A)),
            0x1F => Some(Some(HIDScanCode::S)),
            0x20 => Some(Some(HIDScanCode::D)),
            0x21 => Some(Some(HIDScanCode::F)),
            0x22 => Some(Some(HIDScanCode::G)),
            0x23 => Some(Some(HIDScanCode::H)),
            0x24 => Some(Some(HIDScanCode::J)),
            0x25 => Some(Some(HIDScanCode::K)),
            0x26 => Some(Some(HIDScanCode::L)),
            0x27 => Some(Some(HIDScanCode::Semicolon)),
            0x28 => Some(Some(HIDScanCode::Apostrophe)),
            0x29 => Some(Some(HIDScanCode::Grave)),
            0x2A => Some(Some(HIDScanCode::LeftShift)),
            0x2B => Some(Some(HIDScanCode::Backslash)),
            0x2C => Some(Some(HIDScanCode::Z)),
            0x2D => Some(Some(HIDScanCode::X)),
            0x2E => Some(Some(HIDScanCode::C)),
            0x2F => Some(Some(HIDScanCode::V)),
            0x30 => Some(Some(HIDScanCode::B)),
            0x31 => Some(Some(HIDScanCode::N)),
            0x32 => Some(Some(HIDScanCode::M)),
            0x33 => Some(Some(HIDScanCode::Comma)),
            0x34 => Some(Some(HIDScanCode::Period)),
            0x35 => Some(Some(HIDScanCode::ForwardSlash)),
            0x36 => Some(Some(HIDScanCode::RightShift)),
            0x37 => Some(Some(HIDScanCode::KeypadMultiply)),
            0x38 => Some(Some(HIDScanCode::LeftAlt)),
            0x39 => Some(Some(HIDScanCode::Space)),
            0x3A => Some(Some(HIDScanCode::CapsLock)),
            0x3B => Some(Some(HIDScanCode::F1)),
            0x3C => Some(Some(HIDScanCode::F2)),
            0x3D => Some(Some(HIDScanCode::F3)),
            0x3E => Some(Some(HIDScanCode::F4)),
            0x3F => Some(Some(HIDScanCode::F5)),
            0x40 => Some(Some(HIDScanCode::F6)),
            0x41 => Some(Some(HIDScanCode::F7)),
            0x42 => Some(Some(HIDScanCode::F8)),
            0x43 => Some(Some(HIDScanCode::F9)),
            0x44 => Some(Some(HIDScanCode::F10)),
            0x45 => Some(Some(HIDScanCode::KeypadNumLock)),
            0x46 => Some(Some(HIDScanCode::ScrollLock)),
            0x47 => Some(Some(HIDScanCode::Keypad7)),
            0x48 => Some(Some(HIDScanCode::Keypad8)),
            0x49 => Some(Some(HIDScanCode::Keypad9)),
            0x4A => Some(Some(HIDScanCode::KeypadMinus)),
            0x4B => Some(Some(HIDScanCode::Keypad4)),
            0x4C => Some(Some(HIDScanCode::Keypad5)),
            0x4D => Some(Some(HIDScanCode::Keypad6)),
            0x4E => Some(Some(HIDScanCode::KeypadPlus)),
            0x4F => Some(Some(HIDScanCode::Keypad1)),
            0x50 => Some(Some(HIDScanCode::Keypad2)),
            0x51 => Some(Some(HIDScanCode::Keypad3)),
            0x52 => Some(Some(HIDScanCode::Keypad0)),
            0x53 => Some(Some(HIDScanCode::KeypadDecimal)),
            0x54 => Some(Some(HIDScanCode::PrintScreen)),
            0x56 => Some(Some(HIDScanCode::NonUSHash)),
            0x57 => Some(Some(HIDScanCode::F11)),
            0x58 => Some(Some(HIDScanCode::F12)),
            0x59 => Some(Some(HIDScanCode::KeypadEquals)),
            0x5C => Some(Some(HIDScanCode::International6)),
            0x63 => Some(Some(HIDScanCode::Help)),
            0x64 => Some(Some(HIDScanCode::F13)),
            0x65 => Some(Some(HIDScanCode::F14)),
            0x66 => Some(Some(HIDScanCode::F15)),
            0x67 => Some(Some(HIDScanCode::F16)),
            0x68 => Some(Some(HIDScanCode::F17)),
            0x69 => Some(Some(HIDScanCode::F18)),
            0x6A => Some(Some(HIDScanCode::F19)),
            0x6B => Some(Some(HIDScanCode::F20)),
            0x6C => Some(Some(HIDScanCode::F21)),
            0x6D => Some(Some(HIDScanCode::F22)),
            0x6E => Some(Some(HIDScanCode::F23)),
            0x70 => Some(Some(HIDScanCode::International2)),
            0x71 => Some(Some(HIDScanCode::LANG2)),
            0x72 => Some(Some(HIDScanCode::LANG1)),
            0x73 => Some(Some(HIDScanCode::International1)),
            0x76 => Some(Some(HIDScanCode::LANG5)),
            0x77 => Some(Some(HIDScanCode::LANG4)),
            0x78 => Some(Some(HIDScanCode::LANG3)),
            0x79 => Some(Some(HIDScanCode::International4)),
            0x7B => Some(Some(HIDScanCode::International5)),
            0x7C => Some(Some(HIDScanCode::Tab)),
            0x7D => Some(Some(HIDScanCode::International3)),
            0x7E => Some(Some(HIDScanCode::KeypadComma)),
            0xF1 => Some(Some(HIDScanCode::LANG2)),
            0xF2 => Some(Some(HIDScanCode::LANG1)),
            _ => None,
    }
}

/// Translates raw keyboard input (make code, `E0` and `E1` prefix flags and
/// virtual key) into a HID scan code. `Ok(None)` for fake keys: make code 0,
/// the fake shifts of extended keys, the simulated control of Alt Gr and the
/// Num Lock half of Pause.
pub fn raw_input_to_hid_scancode(make_code: u16, e0: bool, v_key: u16, e1: bool) -> (r: Result<Option<HIDScanCode>, Error>)
    requires
        known_make_code(make_code, e0),
    ensures
        r == Ok::<Option<HIDScanCode>, Error>(spec_raw_input_to_hid_scancode(make_code, e0, v_key, e1)),
{
    if make_code == 0 {
        return Ok(None);
    }
    let entry = if e0 {
        e0_scancode_exec(make_code)
    } else {
        plain_scancode_exec(make_code)
    };
    let scancode = match entry {
        Some(Some(code)) => code,
        _ => {
            return Ok(None);
        },
    };
    if scancode == HIDScanCode::RightAlt && v_key == VK_CONTROL {
        return Ok(None);
    }
    if scancode == HIDScanCode::LeftControl && e1 {
        return Ok(Some(HIDScanCode::Pause));
    } else if scancode == HIDScanCode::KeypadNumLock && v_key == 0xFF {
        return Ok(None);
    }
    Ok(Some(scancode))
}

/// The letter printed on a key, for the letter keys.
pub open spec fn key_letter(k: HIDScanCode) -> Option<char> {
    match k {
        HIDScanCode::A => Some('A'),
        HIDScanCode::B => Some('B'),
        HIDScanCode::C => Some('C'),
        HIDScanCode::D => Some('D'),
        HIDScanCode::E => Some('E'),
        HIDScanCode::F => Some('F'),
        HIDScanCode::G => Some('G'),
        HIDScanCode::H => Some('H'),
        HIDScanCode::I => Some('I'),
        HIDScanCode::J => Some('J'),
        HIDScanCode::K => Some('K'),
        HIDScanCode::L => Some('L'),
        HIDScanCode::M => Some('M'),
        HIDScanCode::N => Some('N'),
        HIDScanCode::O => Some('O'),
        HIDScanCode::P => Some('P'),
        HIDScanCode::Q => Some('Q'),
        HIDScanCode::R => Some('R'),
        HIDScanCode::S => Some('S'),
        HIDScanCode::T => Some('T'),
        HIDScanCode::U => Some('U'),
        HIDScanCode::V => Some('V'),
        HIDScanCode::W => Some('W'),
        HIDScanCode::X => Some('X'),
        HIDScanCode::Y => Some('Y'),
        HIDScanCode::Z => Some('Z'),
        _ => None,
    }
}

/// The digit printed on a key of the number row, for those keys.
pub open spec fn key_digit(k: HIDScanCode) -> Option<int> {
    match k {
        HIDScanCode::Key0 => Some(0int),
        HIDScanCode::Key1 => Some(1int),
        HIDScanCode::Key2 => Some(2int),
        HIDScanCode::Key3 => Some(3int),
        HIDScanCode::Key4 => Some(4int),
        HIDScanCode::Key5 => Some(5int),
        HIDScanCode::Key6 => Some(6int),
        HIDScanCode::Key7 => Some(7int),
        HIDScanCode::Key8 => Some(8int),
        HIDScanCode::Key9 => Some(9int),
        _ => None,
    }
}

/// The letter rows of a QWERTY keyboard, top to bottom, left to right.
pub open spec fn qwerty_rows() -> Seq<Seq<char>> {
    seq![seq!['Q', 'W', 'E', 'R', 'T', 'Y', 'U', 'I', 'O', 'P'], seq!['A', 'S', 'D', 'F', 'G', 'H', 'J', 'K', 'L'], seq!['Z', 'X', 'C', 'V', 'B', 'N', 'M']]
}

/// The make code of the leftmost key of each letter row in scan code set 1.
pub open spec fn row_start(row: int) -> int {
    if row == 0 {
        0x10
    } else if row == 1 {
        0x1E
    } else {
        0x2C
    }
}

/// Plain (not extended) make codes number the letter keys along the rows
/// of the keyboard: the key `col` places right of the start of a letter row
/// reports the letter at that place of the QWERTY layout, whatever the
/// virtual key and `E1` flag.
pub proof fn lemma_letter_rows(row: int, col: int, v_key: u16, e1: bool)
    requires
        0 <= row < 3,
        0 <= col < qwerty_rows()[row].len(),
    ensures
        spec_raw_input_to_hid_scancode((row_start(row) + col) as u16, false, v_key, e1) matches Some(k)
            && key_letter(k) == Some(qwerty_rows()[row][col]),
{
    assert(qwerty_rows()[0] == seq!['Q', 'W', 'E', 'R', 'T', 'Y', 'U', 'I', 'O', 'P']);
    assert(qwerty_rows()[1] == seq!['A', 'S', 'D', 'F', 'G', 'H', 'J', 'K', 'L']);
    assert(qwerty_rows()[2] == seq!['Z', 'X', 'C', 'V', 'B', 'N', 'M']);
    if row == 0 {
        assert(col == 0 || col == 1 || col == 2 || col == 3 || col == 4 || col == 5 || col == 6 || col == 7
            || col == 8 || col == 9);
    } else if row == 1 {
        assert(col == 0 || col == 1 || col == 2 || col == 3 || col == 4 || col == 5 || col == 6 || col == 7
            || col == 8);
    } else {
        assert(col == 0 || col == 1 || col == 2 || col == 3 || col == 4 || col == 5 || col == 6);
    }
}

/// Of the plain make codes that raw input handles, only those of the three
/// letter rows report letter keys, so no two of them report the same letter.
pub proof fn lemma_letters_only_from_rows(make_code: u16, v_key: u16, e1: bool)
    requires
        known_make_code(make_code, false),
    ensures
        spec_raw_input_to_hid_scancode(make_code, false, v_key, e1) matches Some(k) && key_letter(k) is Some
            ==> exists|row: int, col: int| #![trigger qwerty_rows()[row][col]] 0 <= row < 3 && 0 <= col < qwerty_rows()[row].len()
                && make_code == row_start(row) + col,
{
    if spec_raw_input_to_hid_scancode(make_code, false, v_key, e1) matches Some(k) && key_letter(k) is Some {
        assert(make_code != 0);
        assert((0x10 <= make_code < 0x1A) || (0x1E <= make_code < 0x27) || (0x2C <= make_code < 0x33));
        let row: int = if make_code < 0x1E { 0 } else if make_code < 0x2C { 1 } else { 2 };
        assert(qwerty_rows()[0].len() == 10);
        assert(qwerty_rows()[1].len() == 9);
        assert(qwerty_rows()[2].len() == 7);
        assert(0 <= make_code - row_start(row) < qwerty_rows()[row].len());
        let col: int = make_code - row_start(row);
        assert(qwerty_rows()[row][col] == qwerty_rows()[row][col]);
    }
}

/// The number row reports the digits 1 to 9 and then 0, at plain make codes
/// 0x02 to 0x0B.
pub proof fn lemma_digit_row(col: int, v_key: u16, e1: bool)
    requires
        0 <= col < 10,
    ensures
        spec_raw_input_to_hid_scancode((0x02 + col) as u16, false, v_key, e1) matches Some(k)
            && key_digit(k) == Some((col + 1) % 10),
{
    assert(col == 0 || col == 1 || col == 2 || col == 3 || col == 4 || col == 5 || col == 6 || col == 7
        || col == 8 || col == 9);
}

/// No two plain make codes that raw input handles report the same letter
/// key.
pub proof fn lemma_letter_codes_distinct(m1: u16, m2: u16, v1: u16, v2: u16, e1: bool, e2: bool)
    requires
        known_make_code(m1, false),
        known_make_code(m2, false),
        spec_raw_input_to_hid_scancode(m1, false, v1, e1) matches Some(k) && key_letter(k) is Some,
        spec_raw_input_to_hid_scancode(m1, false, v1, e1) == spec_raw_input_to_hid_scancode(m2, false, v2, e2),
    ensures
        m1 == m2,
{
    lemma_letters_only_from_rows(m1, v1, e1);
    lemma_letters_only_from_rows(m2, v2, e2);
    let (r1, c1) = choose|row: int, col: int| #![trigger qwerty_rows()[row][col]] 0 <= row < 3 && 0 <= col < qwerty_rows()[row].len()
        && m1 == row_start(row) + col;
    let (r2, c2) = choose|row: int, col: int| #![trigger qwerty_rows()[row][col]] 0 <= row < 3 && 0 <= col < qwerty_rows()[row].len()
        && m2 == row_start(row) + col;
    lemma_letter_rows(r1, c1, v1, e1);
    lemma_letter_rows(r2, c2, v2, e2);
    assert((0x10 <= m1 < 0x1A) || (0x1E <= m1 < 0x27) || (0x2C <= m1 < 0x33));
}

/// The number of a function key, for F1 to F12.
pub open spec fn function_key_number(k: HIDScanCode) -> Option<int> {
    match k {
        HIDScanCode::F1 => Some(1int),
        HIDScanCode::F2 => Some(2int),
        HIDScanCode::F3 => Some(3int),
        HIDScanCode::F4 => Some(4int),
        HIDScanCode::F5 => Some(5int),
        HIDScanCode::F6 => Some(6int),
        HIDScanCode::F7 => Some(7int),
        HIDScanCode::F8 => Some(8int),
        HIDScanCode::F9 => Some(9int),
        HIDScanCode::F10 => Some(10int),
        HIDScanCode::F11 => Some(11int),
        HIDScanCode::F12 => Some(12int),
        _ => None,
    }
}

/// Plain make codes 0x3B to 0x44 report F1 to F10 in order, and 0x57 and
/// 0x58 report F11 and F12.
pub proof fn lemma_function_keys(i: int, v_key: u16, e1: bool)
    requires
        1 <= i <= 12,
    ensures
        spec_raw_input_to_hid_scancode((if i <= 10 { 0x3A + i } else { 0x4C + i }) as u16, false, v_key, e1)
            matches Some(k) && function_key_number(k) == Some(i),
{
    assert(i == 1 || i == 2 || i == 3 || i == 4 || i == 5 || i == 6 || i == 7 || i == 8 || i == 9 || i == 10
        || i == 11 || i == 12);
}

} // verus!
