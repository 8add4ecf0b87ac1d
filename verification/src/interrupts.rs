//! Interrupt numbering for the chained 8259 PICs, and the decoding of PS/2
//! keyboard scancodes into keys.
use vstd::prelude::*;
use pc_keyboard::layouts::Us104Key;
use pc_keyboard::{KeyCode, KeyEvent, KeyState, Keyboard, ScancodeSet1};

verus! {

/// I/O port of the PS/2 controller's data register.
pub const PS2_IO_PORT: u16 = 0x60;

/// First interrupt vector of the primary PIC.
pub const PIC_1_OFFSET: u8 = 32;

/// First interrupt vector of the secondary PIC.
pub const PIC_2_OFFSET: u8 = PIC_1_OFFSET + 8;

/// The hardware interrupts the kernel handles.
#[derive(Debug, Clone, Copy)]
pub enum InterruptIdx {
    Timer,
    Keyboard,
}

/// The interrupt vector of each hardware interrupt: the timer is line 0 of the
/// primary PIC, the keyboard line 1.
pub open spec fn vector(idx: InterruptIdx) -> u8 {
    match idx {
        InterruptIdx::Timer => PIC_1_OFFSET,
        InterruptIdx::Keyboard => (PIC_1_OFFSET + 1) as u8,
    }
}

impl InterruptIdx {
    /// The interrupt vector, as the PIC reports it and as end-of-interrupt takes it.
    pub fn as_u8(self) -> (r: u8)
        ensures
            r == vector(self),
    {
        match self {
            InterruptIdx::Timer => PIC_1_OFFSET,
            InterruptIdx::Keyboard => PIC_1_OFFSET + 1,
        }
    }

    /// The interrupt vector as an index into the interrupt descriptor table.
    pub fn as_usize(self) -> (r: usize)
        ensures
            r == vector(self) as usize,
    {
        self.as_u8() as usize
    }
}

/// Both hardware interrupts are lines of the primary PIC, above the CPU's
/// exception vectors, on different vectors.
pub proof fn lemma_vectors_on_primary_pic(idx: InterruptIdx)
    ensures
        32 <= PIC_1_OFFSET <= vector(idx) < PIC_2_OFFSET,
        vector(InterruptIdx::Timer) != vector(InterruptIdx::Keyboard),
{
}

/// The PS/2 keyboard decoder of `pc_keyboard`: a US 104-key layout on scancode
/// set 1 that leaves Ctrl combinations alone. Its state is whether an 0xE0
/// prefix is pending (`prefix_pending`) and which modifier keys are active
/// (`modifier_flags`).
#[verifier::external_body]
pub struct KeyboardDecoder {
    keyboard: Keyboard<Us104Key, ScancodeSet1>,
}

#[verifier::external_type_specification]
pub struct ExKeyCode(KeyCode);

/// Whether a key went down or came up.
#[derive(Debug, Clone, Copy, PartialEq, Eq)]
pub enum KeyMotion {
    Pressed,
    Released,
}

/// A key event as the scancode decoder reports it: which key, and how it moved.
#[derive(Debug, Clone, Copy)]
pub struct ScannedKey {
    pub code: KeyCode,
    pub motion: KeyMotion,
}

/// A decoded key press.
#[derive(Debug, Clone, Copy)]
pub enum KeyInput {
    /// A key that stands for a character.
    Unicode(char),
    /// A key with no character, such as a function key.
    RawKey(KeyCode),
}

/// The modifier keys the decoder keeps track of.
#[derive(Debug, Clone, Copy, PartialEq, Eq)]
pub struct ModifierKeys {
    pub lshift: bool,
    pub rshift: bool,
    pub lctrl: bool,
    pub rctrl: bool,
    pub numlock: bool,
    pub capslock: bool,
    pub alt_gr: bool,
}

/// The modifiers of a fresh decoder: Num Lock on, everything else off.
pub open spec fn initial_modifiers() -> ModifierKeys {
    ModifierKeys {
        lshift: false,
        rshift: false,
        lctrl: false,
        rctrl: false,
        numlock: true,
        capslock: false,
        alt_gr: false,
    }
}

/// Whether the decoder has seen an 0xE0 prefix and waits for the byte it
/// announces.
pub uninterp spec fn prefix_pending(k: KeyboardDecoder) -> bool;

/// The decoder's modifier keys.
pub uninterp spec fn modifier_flags(k: KeyboardDecoder) -> ModifierKeys;

/// The key of a one-byte scancode-set-1 code (`ScancodeSet1::map_scancode`);
/// `None` for a code the table does not know.
pub uninterp spec fn set1_key(code: u8) -> Option<KeyCode>;

/// The key of a scancode-set-1 code after an 0xE0 prefix
/// (`ScancodeSet1::map_extended_scancode`); `None` for an unknown code.
pub uninterp spec fn set1_extended_key(code: u8) -> Option<KeyCode>;

/// What the US 104-key layout makes of a pressed key under the given modifiers,
/// with Ctrl combinations left alone (`Us104Key::map_keycode` with
/// `HandleControl::Ignore`).
pub uninterp spec fn us104_key(m: ModifierKeys, code: KeyCode) -> KeyInput;

/// The key event that `byte` completes, given whether a prefix is pending: none
/// for the prefix itself or for a code the tables do not know; a release for a
/// byte from 0x80 up, whose low seven bits name the key; a press otherwise.
pub open spec fn scanned_key(prefix: bool, byte: u8) -> Option<ScannedKey> {
    if !prefix && byte == 0xe0 {
        None
    } else if prefix {
        event_from(set1_extended_key(key_code_byte(byte)), byte)
    } else {
        event_from(set1_key(key_code_byte(byte)), byte)
    }
}

/// The part of a scancode byte that names the key (its low seven bits).
pub open spec fn key_code_byte(byte: u8) -> u8 {
    if byte >= 0x80 {
        (byte - 0x80) as u8
    } else {
        byte
    }
}

/// The event for `key` as scancode `byte` reports it: a release for a byte from
/// 0x80 up, a press otherwise; none for an unknown key.
pub open spec fn event_from(key: Option<KeyCode>, byte: u8) -> Option<ScannedKey> {
    match key {
        Some(c) => Some(
            ScannedKey { code: c, motion: if byte >= 0x80 { KeyMotion::Released } else { KeyMotion::Pressed } },
        ),
        None => None,
    }
}

/// Whether a prefix is pending after `byte`: exactly when none was and `byte`
/// is the prefix.
pub open spec fn next_prefix(prefix: bool, byte: u8) -> bool {
    !prefix && byte == 0xe0
}

/// The modifier keys the decoder tracks.
pub open spec fn is_modifier(code: KeyCode) -> bool {
    ||| code == KeyCode::ShiftLeft
    ||| code == KeyCode::ShiftRight
    ||| code == KeyCode::CapsLock
    ||| code == KeyCode::NumpadLock
    ||| code == KeyCode::ControlLeft
    ||| code == KeyCode::ControlRight
    ||| code == KeyCode::AltRight
}

/// The key an event gives: none for a release or a modifier key; the layout's
/// key for any other press.
pub open spec fn decoded_key(m: ModifierKeys, ev: ScannedKey) -> Option<KeyInput> {
    if ev.motion == KeyMotion::Released || is_modifier(ev.code) {
        None
    } else {
        Some(us104_key(m, ev.code))
    }
}

/// The modifiers after an event: Shift, Ctrl and AltGr follow their keys, Caps
/// Lock and Num Lock toggle on a press; other keys change nothing.
pub open spec fn next_modifiers(m: ModifierKeys, ev: ScannedKey) -> ModifierKeys {
    let down = ev.motion == KeyMotion::Pressed;
    if ev.code == KeyCode::ShiftLeft {
        ModifierKeys { lshift: down, ..m }
    } else if ev.code == KeyCode::ShiftRight {
        ModifierKeys { rshift: down, ..m }
    } else if ev.code == KeyCode::CapsLock && down {
        ModifierKeys { capslock: !m.capslock, ..m }
    } else if ev.code == KeyCode::NumpadLock && down {
        ModifierKeys { numlock: !m.numlock, ..m }
    } else if ev.code == KeyCode::ControlLeft {
        ModifierKeys { lctrl: down, ..m }
    } else if ev.code == KeyCode::ControlRight {
        ModifierKeys { rctrl: down, ..m }
    } else if ev.code == KeyCode::AltRight {
        ModifierKeys { alt_gr: down, ..m }
    } else {
        m
    }
}

/// `pc_keyboard::Keyboard::new(layouts::Us104Key, ScancodeSet1, HandleControl::Ignore)`:
/// a decoder with no prefix pending and Num Lock as the only active modifier.
#[verifier::external_body]
fn keyboard_new() -> (r: KeyboardDecoder)
    ensures
        !prefix_pending(r),
        modifier_flags(r) == initial_modifiers(),
{
    KeyboardDecoder { keyboard: Keyboard::new(Us104Key, ScancodeSet1, pc_keyboard::HandleControl::Ignore) }
}

/// `pc_keyboard::Keyboard::add_byte` (with `ScancodeSet1::advance_state`): the
/// key event the byte completes, a decoding error coming back as `None`; the
/// prefix state moves on and the modifiers stay.
#[verifier::external_body]
fn keyboard_add_byte(keyboard: &mut KeyboardDecoder, byte: u8) -> (r: Option<ScannedKey>)
    ensures
        r == (if !prefix_pending(*old(keyboard)) && byte == 0xe0 {
            None
        } else if prefix_pending(*old(keyboard)) {
            event_from(set1_extended_key(key_code_byte(byte)), byte)
        } else {
            event_from(set1_key(key_code_byte(byte)), byte)
        }),
        prefix_pending(*final(keyboard)) == next_prefix(prefix_pending(*old(keyboard)), byte),
        modifier_flags(*final(keyboard)) == modifier_flags(*old(keyboard)),
{
    match keyboard.keyboard.add_byte(byte) {
        Ok(Some(event)) => Some(ScannedKey {
            code: event.code,
            motion: match event.state {
                KeyState::Down => KeyMotion::Pressed,
                KeyState::Up => KeyMotion::Released,
            },
        }),
        Ok(None) => None,
        Err(_) => None,
    }
}

/// `pc_keyboard::Keyboard::process_keyevent`: the key the event gives under the
/// current modifiers, and the modifiers after it; the prefix state stays.
#[verifier::external_body]
fn keyboard_process_keyevent(keyboard: &mut KeyboardDecoder, event: ScannedKey) -> (r: Option<KeyInput>)
    ensures
        r == (if event.motion == KeyMotion::Released || is_modifier(event.code) {
            None
        } else {
            Some(us104_key(modifier_flags(*old(keyboard)), event.code))
        }),
        modifier_flags(*final(keyboard)) == next_modifiers(modifier_flags(*old(keyboard)), event),
        prefix_pending(*final(keyboard)) == prefix_pending(*old(keyboard)),
{
    let state = match event.motion {
        KeyMotion::Pressed => KeyState::Down,
        KeyMotion::Released => KeyState::Up,
    };
    match keyboard.keyboard.process_keyevent(KeyEvent::new(event.code, state)) {
        Some(pc_keyboard::DecodedKey::Unicode(c)) => Some(KeyInput::Unicode(c)),
        Some(pc_keyboard::DecodedKey::RawKey(k)) => Some(KeyInput::RawKey(k)),
        None => None,
    }
}

impl KeyboardDecoder {
    /// A decoder for a US 104-key keyboard on scancode set 1 that leaves Ctrl
    /// combinations alone, with no prefix pending and Num Lock on.
    pub fn new() -> (r: Self)
        ensures
            !prefix_pending(r),
            modifier_flags(r) == initial_modifiers(),
    {
        keyboard_new()
    }

    /// The key that `event` gives under the current modifiers; the modifiers
    /// follow the event.
    pub fn process_key_event(&mut self, event: ScannedKey) -> (r: Option<KeyInput>)
        ensures
            r == decoded_key(modifier_flags(*old(self)), event),
            modifier_flags(*final(self)) == next_modifiers(modifier_flags(*old(self)), event),
            prefix_pending(*final(self)) == prefix_pending(*old(self)),
    {
        keyboard_process_keyevent(self, event)
    }

    /// Feeds the scancode read from the PS/2 port to the decoder: the event it
    /// completes, if any, is turned into a key under the current modifiers.
    pub fn decode(&mut self, scancode: u8) -> (r: Option<KeyInput>)
        ensures
            r == match scanned_key(prefix_pending(*old(self)), scancode) {
                Some(ev) => decoded_key(modifier_flags(*old(self)), ev),
                None => None,
            },
            prefix_pending(*final(self)) == next_prefix(prefix_pending(*old(self)), scancode),
            modifier_flags(*final(self)) == match scanned_key(prefix_pending(*old(self)), scancode) {
                Some(ev) => next_modifiers(modifier_flags(*old(self)), ev),
                None => modifier_flags(*old(self)),
            },
    {
        match keyboard_add_byte(self, scancode) {
            Some(event) => self.process_key_event(event),
            None => None,
        }
    }
}

/// Every press of a key other than a modifier gives the layout's key for it
/// under the current modifiers; in particular a press code (below 0x80) with no
/// prefix pending that names such a key decodes to that key.
pub proof fn lemma_presses_give_layout_key(m: ModifierKeys, ev: ScannedKey, byte: u8)
    ensures
        ev.motion == KeyMotion::Pressed && !is_modifier(ev.code) ==> decoded_key(m, ev) == Some(us104_key(m, ev.code)),
        byte < 0x80 ==> match set1_key(byte) {
            Some(c) => scanned_key(false, byte) == Some(ScannedKey { code: c, motion: KeyMotion::Pressed })
                && (!is_modifier(c) ==> decoded_key(m, ScannedKey { code: c, motion: KeyMotion::Pressed })
                == Some(us104_key(m, c))),
            None => scanned_key(false, byte) is None,
        },
{
}

/// Release codes and the prefix never give a key.
pub proof fn lemma_releases_give_no_key(prefix: bool, m: ModifierKeys, byte: u8)
    requires
        byte >= 0x80,
    ensures
        match scanned_key(prefix, byte) {
            Some(ev) => decoded_key(m, ev) is None,
            None => true,
        },
{
}

} // verus!
