//! Input vocabulary shared by the platform layer, shortcuts and elements:
//! keys, modifier state, mouse buttons and layer blend modes.

use vstd::prelude::*;

verus! {

/// Blend modes for layer compositing.
#[derive(Debug, Clone, Copy, PartialEq, Eq, Structural)]
pub enum BlendMode {
    /// Standard alpha blending (the default)
    Alpha,
    /// Additive blending
    Additive,
    /// Multiply blending
    Multiply,
    /// Replace (no blending)
    Replace,
}

impl Default for BlendMode {
    fn default() -> (m: Self)
        ensures
            m == BlendMode::Alpha,
    {
        BlendMode::Alpha
    }
}

/// Mouse buttons.
#[derive(Debug, Clone, Copy, PartialEq, Eq, Structural)]
pub enum MouseButton {
    Left,
    Right,
    Middle,
}

/// Modifier key state.
#[derive(Debug, Clone, Copy, PartialEq, Eq, Structural)]
pub struct Modifiers {
    pub shift: bool,
    pub ctrl: bool,
    /// Option key on macOS
    pub alt: bool,
    /// Command key on macOS
    pub cmd: bool,
    pub caps_lock: bool,
}

impl Default for Modifiers {
    fn default() -> (m: Self)
        ensures
            !m.shift && !m.ctrl && !m.alt && !m.cmd && !m.caps_lock,
    {
        Modifiers { shift: false, ctrl: false, alt: false, cmd: false, caps_lock: false }
    }
}

impl Modifiers {
    /// No modifier pressed.
    pub fn new() -> (m: Self)
        ensures
            !m.shift && !m.ctrl && !m.alt && !m.cmd && !m.caps_lock,
    {
        Self::default()
    }

    /// Whether none of shift, ctrl, alt and cmd is pressed (caps lock is ignored).
    pub fn is_empty(&self) -> (r: bool)
        ensures
            r == (!self.shift && !self.ctrl && !self.alt && !self.cmd),
    {
        !self.shift && !self.ctrl && !self.alt && !self.cmd
    }

    /// Whether shift is the only one of shift, ctrl, alt and cmd pressed.
    pub fn shift_only(&self) -> (r: bool)
        ensures
            r == (self.shift && !self.ctrl && !self.alt && !self.cmd),
    {
        self.shift && !self.ctrl && !self.alt && !self.cmd
    }

    /// Whether command or control is pressed.
    pub fn command_or_ctrl(&self) -> (r: bool)
        ensures
            r == (self.cmd || self.ctrl),
    {
        self.cmd || self.ctrl
    }
}

/// Virtual keys, named after macOS virtual key codes.
#[derive(Debug, Clone, Copy, PartialEq, Eq, Hash, Structural)]
pub enum Key {
    // Letters
    A,
    B,
    C,
    D,
    E,
    F,
    G,
    H,
    I,
    J,
    K,
    L,
    M,
    N,
    O,
    P,
    Q,
    R,
    S,
    T,
    U,
    V,
    W,
    X,
    Y,
    Z,
    // Numbers
    Key0,
    Key1,
    Key2,
    Key3,
    Key4,
    Key5,
    Key6,
    Key7,
    Key8,
    Key9,
    // Function keys
    F1,
    F2,
    F3,
    F4,
    F5,
    F6,
    F7,
    F8,
    F9,
    F10,
    F11,
    F12,
    // Modifiers (for tracking purposes)
    Shift,
    Control,
    Alt,
    Command,
    CapsLock,
    LeftShift,
    RightShift,
    LeftControl,
    RightControl,
    LeftAlt,
    RightAlt,
    LeftCommand,
    RightCommand,
    // Navigation
    Up,
    Down,
    Left,
    Right,
    Home,
    End,
    PageUp,
    PageDown,
    // Editing
    Backspace,
    Delete,
    Tab,
    Return,
    Escape,
    Space,
    // Punctuation and symbols
    Minus,
    Equal,
    LeftBracket,
    RightBracket,
    Backslash,
    Semicolon,
    Quote,
    Grave,
    Comma,
    Period,
    Slash,
    // Numpad
    Numpad0,
    Numpad1,
    Numpad2,
    Numpad3,
    Numpad4,
    Numpad5,
    Numpad6,
    Numpad7,
    Numpad8,
    Numpad9,
    NumpadDecimal,
    NumpadMultiply,
    NumpadPlus,
    NumpadClear,
    NumpadDivide,
    NumpadEnter,
    NumpadMinus,
    NumpadEquals,
    // Other
    Insert,
    PrintScreen,
    ScrollLock,
    Pause,
    /// Unknown key with its raw key code
    Unknown(u16),
}

/// The key for a macOS virtual key code; codes without a key map to `Unknown`.
pub open spec fn keycode_key(code: u16) -> Key {
    match code {
        0x00 => Key::A,
        0x01 => Key::S,
        0x02 => Key::D,
        0x03 => Key::F,
        0x04 => Key::H,
        0x05 => Key::G,
        0x06 => Key::Z,
        0x07 => Key::X,
        0x08 => Key::C,
        0x09 => Key::V,
        0x0B => Key::B,
        0x0C => Key::Q,
        0x0D => Key::W,
        0x0E => Key::E,
        0x0F => Key::R,
        0x10 => Key::Y,
        0x11 => Key::T,
        0x12 => Key::Key1,
        0x13 => Key::Key2,
        0x14 => Key::Key3,
        0x15 => Key::Key4,
        0x16 => Key::Key6,
        0x17 => Key::Key5,
        0x18 => Key::Equal,
        0x19 => Key::Key9,
        0x1A => Key::Key7,
        0x1B => Key::Minus,
        0x1C => Key::Key8,
        0x1D => Key::Key0,
        0x1E => Key::RightBracket,
        0x1F => Key::O,
        0x20 => Key::U,
        0x21 => Key::LeftBracket,
        0x22 => Key::I,
        0x23 => Key::P,
        0x24 => Key::Return,
        0x25 => Key::L,
        0x26 => Key::J,
        0x27 => Key::Quote,
        0x28 => Key::K,
        0x29 => Key::Semicolon,
        0x2A => Key::Backslash,
        0x2B => Key::Comma,
        0x2C => Key::Slash,
        0x2D => Key::N,
        0x2E => Key::M,
        0x2F => Key::Period,
        0x30 => Key::Tab,
        0x31 => Key::Space,
        0x32 => Key::Grave,
        0x33 => Key::Backspace,
        0x35 => Key::Escape,
        0x37 => Key::Command,
        0x38 => Key::LeftShift,
        0x39 => Key::CapsLock,
        0x3A => Key::LeftAlt,
        0x3B => Key::LeftControl,
        0x3C => Key::RightShift,
        0x3D => Key::RightAlt,
        0x3E => Key::RightControl,
        0x7A => Key::F1,
        0x78 => Key::F2,
        0x63 => Key::F3,
        0x76 => Key::F4,
        0x60 => Key::F5,
        0x61 => Key::F6,
        0x62 => Key::F7,
        0x64 => Key::F8,
        0x65 => Key::F9,
        0x6D => Key::F10,
        0x67 => Key::F11,
        0x6F => Key::F12,
        0x7B => Key::Left,
        0x7C => Key::Right,
        0x7D => Key::Down,
        0x7E => Key::Up,
        0x73 => Key::Home,
        0x77 => Key::End,
        0x74 => Key::PageUp,
        0x79 => Key::PageDown,
        0x75 => Key::Delete,
        0x52 => Key::Numpad0,
        0x53 => Key::Numpad1,
        0x54 => Key::Numpad2,
        0x55 => Key::Numpad3,
        0x56 => Key::Numpad4,
        0x57 => Key::Numpad5,
        0x58 => Key::Numpad6,
        0x59 => Key::Numpad7,
        0x5B => Key::Numpad8,
        0x5C => Key::Numpad9,
        0x41 => Key::NumpadDecimal,
        0x43 => Key::NumpadMultiply,
        0x45 => Key::NumpadPlus,
        0x47 => Key::NumpadClear,
        0x4B => Key::NumpadDivide,
        0x4C => Key::NumpadEnter,
        0x4E => Key::NumpadMinus,
        0x51 => Key::NumpadEquals,
        _ => Key::Unknown(code),
    }
}

/// Keys that produce a printable character.
pub open spec fn key_is_printable(k: Key) -> bool {
    match k {
        Key::A | Key::B | Key::C | Key::D | Key::E | Key::F | Key::G | Key::H | Key::I | Key::J | Key::K | Key::L | Key::M | Key::N | Key::O | Key::P | Key::Q | Key::R | Key::S | Key::T | Key::U | Key::V | Key::W | Key::X | Key::Y | Key::Z | Key::Key0 | Key::Key1 | Key::Key2 | Key::Key3 | Key::Key4 | Key::Key5 | Key::Key6 | Key::Key7 | Key::Key8 | Key::Key9 | Key::Space | Key::Minus | Key::Equal | Key::LeftBracket | Key::RightBracket | Key::Backslash | Key::Semicolon | Key::Quote | Key::Grave | Key::Comma | Key::Period | Key::Slash => true,
        _ => false,
    }
}

/// Modifier keys.
pub open spec fn key_is_modifier(k: Key) -> bool {
    match k {
        Key::Shift | Key::Control | Key::Alt | Key::Command | Key::CapsLock | Key::LeftShift | Key::RightShift | Key::LeftControl | Key::RightControl | Key::LeftAlt | Key::RightAlt | Key::LeftCommand | Key::RightCommand => true,
        _ => false,
    }
}

impl Key {
    /// Convert from a macOS virtual key code.
    pub fn from_keycode(code: u16) -> (k: Self)
        ensures
            k == keycode_key(code),
    {
        match code {
            0x00 => Key::A,
            0x01 => Key::S,
            0x02 => Key::D,
            0x03 => Key::F,
            0x04 => Key::H,
            0x05 => Key::G,
            0x06 => Key::Z,
            0x07 => Key::X,
            0x08 => Key::C,
            0x09 => Key::V,
            0x0B => Key::B,
            0x0C => Key::Q,
            0x0D => Key::W,
            0x0E => Key::E,
            0x0F => Key::R,
            0x10 => Key::Y,
            0x11 => Key::T,
            0x12 => Key::Key1,
            0x13 => Key::Key2,
            0x14 => Key::Key3,
            0x15 => Key::Key4,
            0x16 => Key::Key6,
            0x17 => Key::Key5,
            0x18 => Key::Equal,
            0x19 => Key::Key9,
            0x1A => Key::Key7,
            0x1B => Key::Minus,
            0x1C => Key::Key8,
            0x1D => Key::Key0,
            0x1E => Key::RightBracket,
            0x1F => Key::O,
            0x20 => Key::U,
            0x21 => Key::LeftBracket,
            0x22 => Key::I,
            0x23 => Key::P,
            0x24 => Key::Return,
            0x25 => Key::L,
            0x26 => Key::J,
            0x27 => Key::Quote,
            0x28 => Key::K,
            0x29 => Key::Semicolon,
            0x2A => Key::Backslash,
            0x2B => Key::Comma,
            0x2C => Key::Slash,
            0x2D => Key::N,
            0x2E => Key::M,
            0x2F => Key::Period,
            0x30 => Key::Tab,
            0x31 => Key::Space,
            0x32 => Key::Grave,
            0x33 => Key::Backspace,
            0x35 => Key::Escape,
            0x37 => Key::Command,
            0x38 => Key::LeftShift,
            0x39 => Key::CapsLock,
            0x3A => Key::LeftAlt,
            0x3B => Key::LeftControl,
            0x3C => Key::RightShift,
            0x3D => Key::RightAlt,
            0x3E => Key::RightControl,
            0x7A => Key::F1,
            0x78 => Key::F2,
            0x63 => Key::F3,
            0x76 => Key::F4,
            0x60 => Key::F5,
            0x61 => Key::F6,
            0x62 => Key::F7,
            0x64 => Key::F8,
            0x65 => Key::F9,
            0x6D => Key::F10,
            0x67 => Key::F11,
            0x6F => Key::F12,
            0x7B => Key::Left,
            0x7C => Key::Right,
            0x7D => Key::Down,
            0x7E => Key::Up,
            0x73 => Key::Home,
            0x77 => Key::End,
            0x74 => Key::PageUp,
            0x79 => Key::PageDown,
            0x75 => Key::Delete,
            0x52 => Key::Numpad0,
            0x53 => Key::Numpad1,
            0x54 => Key::Numpad2,
            0x55 => Key::Numpad3,
            0x56 => Key::Numpad4,
            0x57 => Key::Numpad5,
            0x58 => Key::Numpad6,
            0x59 => Key::Numpad7,
            0x5B => Key::Numpad8,
            0x5C => Key::Numpad9,
            0x41 => Key::NumpadDecimal,
            0x43 => Key::NumpadMultiply,
            0x45 => Key::NumpadPlus,
            0x47 => Key::NumpadClear,
            0x4B => Key::NumpadDivide,
            0x4C => Key::NumpadEnter,
            0x4E => Key::NumpadMinus,
            0x51 => Key::NumpadEquals,
            _ => Key::Unknown(code),
        }
    }

    /// Whether this key produces a printable character.
    pub fn is_printable(&self) -> (r: bool)
        ensures
            r == key_is_printable(*self),
    {
        match self {
            Key::A | Key::B | Key::C | Key::D | Key::E | Key::F | Key::G | Key::H | Key::I | Key::J | Key::K | Key::L | Key::M | Key::N | Key::O | Key::P | Key::Q | Key::R | Key::S | Key::T | Key::U | Key::V | Key::W | Key::X | Key::Y | Key::Z | Key::Key0 | Key::Key1 | Key::Key2 | Key::Key3 | Key::Key4 | Key::Key5 | Key::Key6 | Key::Key7 | Key::Key8 | Key::Key9 | Key::Space | Key::Minus | Key::Equal | Key::LeftBracket | Key::RightBracket | Key::Backslash | Key::Semicolon | Key::Quote | Key::Grave | Key::Comma | Key::Period | Key::Slash => true,
            _ => false,
        }
    }

    /// Whether this is a modifier key.
    pub fn is_modifier(&self) -> (r: bool)
        ensures
            r == key_is_modifier(*self),
    {
        match self {
            Key::Shift | Key::Control | Key::Alt | Key::Command | Key::CapsLock | Key::LeftShift | Key::RightShift | Key::LeftControl | Key::RightControl | Key::LeftAlt | Key::RightAlt | Key::LeftCommand | Key::RightCommand => true,
            _ => false,
        }
    }
}

} // verus!
