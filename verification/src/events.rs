//! Input events and the values they carry.

use vstd::prelude::*;

pub mod input_state;

pub use input_state::InputState;

verus! {

/// A key of the keyboard.
#[derive(Copy, Clone, Eq, PartialEq, Hash, Debug, Structural)]
pub enum KeyboardKey {
    Backspace,
    Tab,
    Return,
    Escape,
    Space,
    Exclaim,
    Quotedbl,
    Hash,
    Dollar,
    Percent,
    Ampersand,
    Quote,
    LeftParen,
    RightParen,
    Asterisk,
    Plus,
    Comma,
    Minus,
    Period,
    Slash,
    Num0,
    Num1,
    Num2,
    Num3,
    Num4,
    Num5,
    Num6,
    Num7,
    Num8,
    Num9,
    Colon,
    Semicolon,
    Less,
    Equals,
    Greater,
    Question,
    At,
    LeftBracket,
    Backslash,
    RightBracket,
    Caret,
    Underscore,
    Backquote,
    A,
    B,
    C,
    D,
    E,
    F,
    G,
    H,
    I,
    J,
    K,
    L,
    M,
    N,
    O,
    P,
    Q,
    R,
    S,
    T,
    U,
    V,
    W,
    X,
    Y,
    Z,
    Delete,
    CapsLock,
    F1,
    F2,
    F3,
    F4,
    F5,
    F6,
    F7,
    F8,
    F9,
    F10,
    F11,
    F12,
    PrintScreen,
    ScrollLock,
    Pause,
    Insert,
    Home,
    PageUp,
    End,
    PageDown,
    Right,
    Left,
    Down,
    Up,
    NumLockClear,
    KpDivide,
    KpMultiply,
    KpMinus,
    KpPlus,
    KpEnter,
    Kp1,
    Kp2,
    Kp3,
    Kp4,
    Kp5,
    Kp6,
    Kp7,
    Kp8,
    Kp9,
    Kp0,
    KpPeriod,
    Application,
    Power,
    KpEquals,
    F13,
    F14,
    F15,
    F16,
    F17,
    F18,
    F19,
    F20,
    F21,
    F22,
    F23,
    F24,
    Execute,
    Help,
    Menu,
    Select,
    Stop,
    Again,
    Undo,
    Cut,
    Copy,
    Paste,
    Find,
    Mute,
    VolumeUp,
    VolumeDown,
    KpComma,
    KpEqualsAs400,
    AltErase,
    Sysreq,
    Cancel,
    Clear,
    Prior,
    Return2,
    Separator,
    Out,
    Oper,
    ClearAgain,
    CrSel,
    ExSel,
    Kp00,
    Kp000,
    ThousandsSeparator,
    DecimalSeparator,
    CurrencyUnit,
    CurrencySubUnit,
    KpLeftParen,
    KpRightParen,
    KpLeftBrace,
    KpRightBrace,
    KpTab,
    KpBackspace,
    KpA,
    KpB,
    KpC,
    KpD,
    KpE,
    KpF,
    KpXor,
    KpPower,
    KpPercent,
    KpLess,
    KpGreater,
    KpAmpersand,
    KpDblAmpersand,
    KpVerticalBar,
    KpDblVerticalBar,
    KpColon,
    KpHash,
    KpSpace,
    KpAt,
    KpExclam,
    KpMemStore,
    KpMemRecall,
    KpMemClear,
    KpMemAdd,
    KpMemSubtract,
    KpMemMultiply,
    KpMemDivide,
    KpPlusMinus,
    KpClear,
    KpClearEntry,
    KpBinary,
    KpOctal,
    KpDecimal,
    KpHexadecimal,
    LCtrl,
    LShift,
    LAlt,
    LGui,
    RCtrl,
    RShift,
    RAlt,
    RGui,
    Mode,
    AudioNext,
    AudioPrev,
    AudioStop,
    AudioPlay,
    AudioMute,
    MediaSelect,
    Www,
    Mail,
    Calculator,
    Computer,
    AcSearch,
    AcHome,
    AcBack,
    AcForward,
    AcStop,
    AcRefresh,
    AcBookmarks,
    BrightnessDown,
    BrightnessUp,
    DisplaySwitch,
    KbdIllumToggle,
    KbdIllumDown,
    KbdIllumUp,
    Eject,
    Sleep,
}

/// A button of the mouse.
#[derive(Copy, Clone, Eq, PartialEq, Hash, Debug, Structural)]
pub enum MouseButton {
    Left,
    Middle,
    Right,
    X1,
    X2,
}

/// Whether a key or a button is held down.
#[derive(Copy, Clone, Eq, PartialEq, Hash, Debug, Structural)]
pub enum KeyState {
    Pressed,
    Released,
}

/// A key went down.
#[derive(Copy, Clone, Eq, PartialEq, Hash, Debug, Structural)]
pub struct KeyPressEvent {
    pub key: KeyboardKey,
}

/// A key came up.
#[derive(Copy, Clone, Eq, PartialEq, Hash, Debug, Structural)]
pub struct KeyReleaseEvent {
    pub key: KeyboardKey,
}

/// A button went down.
#[derive(Copy, Clone, Eq, PartialEq, Hash, Debug, Structural)]
pub struct MousePressEvent {
    pub button: MouseButton,
}

/// A button came up.
#[derive(Copy, Clone, Eq, PartialEq, Hash, Debug, Structural)]
pub struct MouseReleaseEvent {
    pub button: MouseButton,
}

/// The pointer moved to the point `(x, y)`.
#[derive(Copy, Clone, Eq, PartialEq, Hash, Debug, Structural)]
pub struct MouseMoveEvent {
    pub x: u32,
    pub y: u32,
}

/// Anything a widget can be asked to handle.
#[derive(Copy, Clone, Eq, PartialEq, Hash, Debug, Structural)]
pub enum Event {
    KeyPressEvent(KeyPressEvent),
    KeyReleaseEvent(KeyReleaseEvent),
    MousePressEvent(MousePressEvent),
    MouseReleaseEvent(MouseReleaseEvent),
    MouseMoveEvent(MouseMoveEvent),
}

/// Whether a handler took an event.
#[derive(Copy, Clone, Eq, PartialEq, Hash, Debug, Structural)]
pub enum EventHandlerResult {
    NotHandled,
    Handled,
}

} // verus!
