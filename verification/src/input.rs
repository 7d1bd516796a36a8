use vstd::prelude::*;

verus! {

/// Logical keys of the GUI toolkit that raw keysyms are mapped onto: the
/// arrows, the editing and navigation cluster, digits and Latin letters.
/// Anything else has no mapping and is dropped (composed text still reaches
/// the toolkit separately).
#[derive(Clone, Copy, PartialEq, Eq, Structural, Debug)]
pub enum Key {
    ArrowDown,
    ArrowLeft,
    ArrowRight,
    ArrowUp,
    Escape,
    Tab,
    Backspace,
    Enter,
    Space,
    Insert,
    Delete,
    Home,
    End,
    PageUp,
    PageDown,
    Num0,
    Num1,
    Num2,
    Num3,
    Num4,
    Num5,
    Num6,
    Num7,
    Num8,
    Num9,
    A,
    B,
    C,
    D,
    E,
    F,
    G,
    H,
    I,
    J,
    K,
    L,
    M,
    N,
    O,
    P,
    Q,
    R,
    S,
    T,
    U,
    V,
    W,
    X,
    Y,
    Z,
}

/// The fixed keysym-to-logical-key table. The numeric values are the
/// standard X11 keysym codes the keyboard layout library reports.
pub open spec fn key_of_sym(sym: u32) -> Option<Key> {
    if sym == 0xff54 {
        Some(Key::ArrowDown)
    } else if sym == 0xff51 {
        Some(Key::ArrowLeft)
    } else if sym == 0xff53 {
        Some(Key::ArrowRight)
    } else if sym == 0xff52 {
        Some(Key::ArrowUp)
    } else if sym == 0xff1b {
        Some(Key::Escape)
    } else if sym == 0xff09 {
        Some(Key::Tab)
    } else if sym == 0xff08 {
        Some(Key::Backspace)
    } else if sym == 0xff0d {
        Some(Key::Enter)
    } else if sym == 0x20 {
        Some(Key::Space)
    } else if sym == 0xff63 {
        Some(Key::Insert)
    } else if sym == 0xffff {
        Some(Key::Delete)
    } else if sym == 0xff50 {
        Some(Key::Home)
    } else if sym == 0xff57 {
        Some(Key::End)
    } else if sym == 0xff55 {
        Some(Key::PageUp)
    } else if sym == 0xff56 {
        Some(Key::PageDown)
    } else if sym == 0x30 {
        Some(Key::Num0)
    } else if sym == 0x31 {
        Some(Key::Num1)
    } else if sym == 0x32 {
        Some(Key::Num2)
    } else if sym == 0x33 {
        Some(Key::Num3)
    } else if sym == 0x34 {
        Some(Key::Num4)
    } else if sym == 0x35 {
        Some(Key::Num5)
    } else if sym == 0x36 {
        Some(Key::Num6)
    } else if sym == 0x37 {
        Some(Key::Num7)
    } else if sym == 0x38 {
        Some(Key::Num8)
    } else if sym == 0x39 {
        Some(Key::Num9)
    } else if sym == 0x61 {
        Some(Key::A)
    } else if sym == 0x62 {
        Some(Key::B)
    } else if sym == 0x63 {
        Some(Key::C)
    } else if sym == 0x64 {
        Some(Key::D)
    } else if sym == 0x65 {
        Some(Key::E)
    } else if sym == 0x66 {
        Some(Key::F)
    } else if sym == 0x67 {
        Some(Key::G)
    } else if sym == 0x68 {
        Some(Key::H)
    } else if sym == 0x69 {
        Some(Key::I)
    } else if sym == 0x6a {
        Some(Key::J)
    } else if sym == 0x6b {
        Some(Key::K)
    } else if sym == 0x6c {
        Some(Key::L)
    } else if sym == 0x6d {
        Some(Key::M)
    } else if sym == 0x6e {
        Some(Key::N)
    } else if sym == 0x6f {
        Some(Key::O)
    } else if sym == 0x70 {
        Some(Key::P)
    } else if sym == 0x71 {
        Some(Key::Q)
    } else if sym == 0x72 {
        Some(Key::R)
    } else if sym == 0x73 {
        Some(Key::S)
    } else if sym == 0x74 {
        Some(Key::T)
    } else if sym == 0x75 {
        Some(Key::U)
    } else if sym == 0x76 {
        Some(Key::V)
    } else if sym == 0x77 {
        Some(Key::W)
    } else if sym == 0x78 {
        Some(Key::X)
    } else if sym == 0x79 {
        Some(Key::Y)
    } else if sym == 0x7a {
        Some(Key::Z)
    } else {
        None
    }
}

/// A single raw keysym, as delivered by the compositor's keyboard pipeline.
#[derive(Clone, Copy, PartialEq, Eq, Structural, Debug)]
pub struct KeysymConv(pub u32);

impl KeysymConv {
    /// Looks the keysym up in the fixed mapping table.
    pub fn key(&self) -> (r: Option<Key>)
        ensures
            r == key_of_sym(self.0),
    {
        let sym: u32 = self.0;
        if sym == 0xff54 {
            Some(Key::ArrowDown)
        } else if sym == 0xff51 {
            Some(Key::ArrowLeft)
        } else if sym == 0xff53 {
            Some(Key::ArrowRight)
        } else if sym == 0xff52 {
            Some(Key::ArrowUp)
        } else if sym == 0xff1b {
            Some(Key::Escape)
        } else if sym == 0xff09 {
            Some(Key::Tab)
        } else if sym == 0xff08 {
            Some(Key::Backspace)
        } else if sym == 0xff0d {
            Some(Key::Enter)
        } else if sym == 0x20 {
            Some(Key::Space)
        } else if sym == 0xff63 {
            Some(Key::Insert)
        } else if sym == 0xffff {
            Some(Key::Delete)
        } else if sym == 0xff50 {
            Some(Key::Home)
        } else if sym == 0xff57 {
            Some(Key::End)
        } else if sym == 0xff55 {
            Some(Key::PageUp)
        } else if sym == 0xff56 {
            Some(Key::PageDown)
        } else if sym == 0x30 {
            Some(Key::Num0)
        } else if sym == 0x31 {
            Some(Key::Num1)
        } else if sym == 0x32 {
            Some(Key::Num2)
        } else if sym == 0x33 {
            Some(Key::Num3)
        } else if sym == 0x34 {
            Some(Key::Num4)
        } else if sym == 0x35 {
            Some(Key::Num5)
        } else if sym == 0x36 {
            Some(Key::Num6)
        } else if sym == 0x37 {
            Some(Key::Num7)
        } else if sym == 0x38 {
            Some(Key::Num8)
        } else if sym == 0x39 {
            Some(Key::Num9)
        } else if sym == 0x61 {
            Some(Key::A)
        } else if sym == 0x62 {
            Some(Key::B)
        } else if sym == 0x63 {
            Some(Key::C)
        } else if sym == 0x64 {
            Some(Key::D)
        } else if sym == 0x65 {
            Some(Key::E)
        } else if sym == 0x66 {
            Some(Key::F)
        } else if sym == 0x67 {
            Some(Key::G)
        } else if sym == 0x68 {
            Some(Key::H)
        } else if sym == 0x69 {
            Some(Key::I)
        } else if sym == 0x6a {
            Some(Key::J)
        } else if sym == 0x6b {
            Some(Key::K)
        } else if sym == 0x6c {
            Some(Key::L)
        } else if sym == 0x6d {
            Some(Key::M)
        } else if sym == 0x6e {
            Some(Key::N)
        } else if sym == 0x6f {
            Some(Key::O)
        } else if sym == 0x70 {
            Some(Key::P)
        } else if sym == 0x71 {
            Some(Key::Q)
        } else if sym == 0x72 {
            Some(Key::R)
        } else if sym == 0x73 {
            Some(Key::S)
        } else if sym == 0x74 {
            Some(Key::T)
        } else if sym == 0x75 {
            Some(Key::U)
        } else if sym == 0x76 {
            Some(Key::V)
        } else if sym == 0x77 {
            Some(Key::W)
        } else if sym == 0x78 {
            Some(Key::X)
        } else if sym == 0x79 {
            Some(Key::Y)
        } else if sym == 0x7a {
            Some(Key::Z)
        } else {
            None
        }
    }
}

/// The first keysym in the sequence that the table maps, if any.
pub open spec fn spec_convert_key(syms: Seq<u32>) -> Option<Key>
    decreases syms.len(),
{
    if syms.len() == 0 {
        None
    } else {
        match key_of_sym(syms[0]) {
            Some(k) => Some(k),
            None => spec_convert_key(syms.skip(1)),
        }
    }
}

/// Converts the ordered keysym alternatives of one physical keystroke into a
/// logical key: the first keysym with a table entry wins; `None` when no
/// alternative is in the table.
pub fn convert_key(syms: &Vec<u32>) -> (r: Option<Key>)
    ensures
        r == spec_convert_key(syms@),
{
    let n: usize = syms.len();
    let mut i: usize = 0;
    proof {
        assert(syms@.skip(0) =~= syms@);
    }
    while i < n
        invariant
            0 <= i <= n,
            n == syms@.len(),
            spec_convert_key(syms@.skip(i as int)) == spec_convert_key(syms@),
        decreases n - i,
    {
        let sym = KeysymConv(syms[i]);
        if let Some(k) = sym.key() {
            proof {
                assert(syms@.skip(i as int)[0] == syms@[i as int]);
            }
            return Some(k);
        }
        proof {
            assert(syms@.skip(i as int).skip(1) =~= syms@.skip(i as int + 1));
            assert(syms@.skip(i as int)[0] == syms@[i as int]);
        }
        i = i + 1;
    }
    proof {
        assert(syms@.skip(n as int) =~= Seq::<u32>::empty());
    }
    None
}

/// Every keysym with a table entry maps to exactly that key when it is the
/// only alternative of the keystroke, and a keysym without a table entry
/// yields no key: the singleton conversion agrees with the table everywhere.
pub proof fn lemma_key_mapping_round_trip(sym: u32)
    ensures
        spec_convert_key(seq![sym]) == key_of_sym(sym),
{
    let s: Seq<u32> = seq![sym];
    assert(s.len() == 1);
    assert(s[0] == sym);
    if key_of_sym(sym) is None {
        assert(s.skip(1) =~= Seq::<u32>::empty());
        assert(spec_convert_key(s.skip(1)) is None);
        assert(spec_convert_key(s) is None);
    } else {
        assert(spec_convert_key(s) == key_of_sym(sym));
    }
}

/// Modifier state as tracked by the compositor's seat.
#[derive(Clone, Copy, PartialEq, Eq, Structural, Debug)]
pub struct ModifiersState {
    pub alt: bool,
    pub ctrl: bool,
    pub shift: bool,
    pub logo: bool,
}

impl ModifiersState {
    pub fn none() -> (r: ModifiersState)
        ensures
            r == spec_modifiers_none(),
    {
        ModifiersState { alt: false, ctrl: false, shift: false, logo: false }
    }
}

pub open spec fn spec_modifiers_none() -> ModifiersState {
    ModifiersState { alt: false, ctrl: false, shift: false, logo: false }
}

/// Modifier state in the GUI toolkit's vocabulary.
#[derive(Clone, Copy, PartialEq, Eq, Structural, Debug)]
pub struct Modifiers {
    pub alt: bool,
    pub ctrl: bool,
    pub shift: bool,
    pub mac_cmd: bool,
    pub command: bool,
}

/// Configuration-time platform switch: on the Apple platform family the
/// toolkit's "command" modifier aliases the logo key, elsewhere it aliases
/// ctrl. This build targets a Wayland compositor, so it is fixed to false.
pub const MAC_PLATFORM: bool = false;

/// The toolkit modifiers determined by a compositor modifier state: alt,
/// ctrl and shift map across directly; "command" aliases logo on the Apple
/// platform family and ctrl elsewhere; "mac_cmd" mirrors logo only there.
pub open spec fn spec_convert_modifiers(m: ModifiersState) -> Modifiers {
    Modifiers {
        alt: m.alt,
        ctrl: m.ctrl,
        shift: m.shift,
        mac_cmd: if MAC_PLATFORM {
            m.logo
        } else {
            false
        },
        command: if MAC_PLATFORM {
            m.logo
        } else {
            m.ctrl
        },
    }
}

/// Compositor modifier state paired with its toolkit reading.
#[derive(Clone, Copy, PartialEq, Eq, Structural, Debug)]
pub struct ModifiersWrapper(pub ModifiersState);

impl ModifiersWrapper {
    pub fn modifiers(&self) -> (r: Modifiers)
        ensures
            r == spec_convert_modifiers(self.0),
    {
        Modifiers {
            alt: self.0.alt,
            ctrl: self.0.ctrl,
            shift: self.0.shift,
            mac_cmd: if MAC_PLATFORM {
                self.0.logo
            } else {
                false
            },
            command: if MAC_PLATFORM {
                self.0.logo
            } else {
                self.0.ctrl
            },
        }
    }
}

/// Converts compositor modifier state to toolkit modifiers.
pub fn convert_modifiers(m: ModifiersState) -> (r: Modifiers)
    ensures
        r == spec_convert_modifiers(m),
{
    ModifiersWrapper(m).modifiers()
}

/// The modifier conversion is a pure function of its input and the
/// configuration-time platform: equal inputs give equal outputs, and the
/// "command" modifier follows exactly one of its two aliasing branches —
/// the logo key on the Apple platform family, the ctrl key elsewhere —
/// never both at once.
pub proof fn lemma_convert_modifiers_deterministic(a: ModifiersState, b: ModifiersState)
    ensures
        a == b ==> spec_convert_modifiers(a) == spec_convert_modifiers(b),
        MAC_PLATFORM ==> spec_convert_modifiers(a).command == a.logo && spec_convert_modifiers(
            a,
        ).mac_cmd == a.logo,
        !MAC_PLATFORM ==> spec_convert_modifiers(a).command == a.ctrl && !spec_convert_modifiers(
            a,
        ).mac_cmd,
{
}

/// Physical mouse buttons as the compositor reports them.
#[derive(Clone, Copy, PartialEq, Eq, Structural, Debug)]
pub enum MouseButton {
    Left,
    Middle,
    Right,
    Forward,
    Back,
    Other(u16),
}

/// Pointer buttons in the GUI toolkit's vocabulary.
#[derive(Clone, Copy, PartialEq, Eq, Structural, Debug)]
pub enum PointerButton {
    Primary,
    Secondary,
    Middle,
}

/// The toolkit button for a physical button: left, middle and right map to
/// primary, middle and secondary; every other button has no mapping.
pub open spec fn spec_convert_button(b: MouseButton) -> Option<PointerButton> {
    match b {
        MouseButton::Left => Some(PointerButton::Primary),
        MouseButton::Middle => Some(PointerButton::Middle),
        MouseButton::Right => Some(PointerButton::Secondary),
        _ => None,
    }
}

/// A physical mouse button paired with its toolkit reading.
#[derive(Clone, Copy, PartialEq, Eq, Structural, Debug)]
pub struct ButtonWrapper(pub MouseButton);

impl ButtonWrapper {
    pub fn button(&self) -> (r: Option<PointerButton>)
        ensures
            r == spec_convert_button(self.0),
    {
        match self.0 {
            MouseButton::Left => Some(PointerButton::Primary),
            MouseButton::Middle => Some(PointerButton::Middle),
            MouseButton::Right => Some(PointerButton::Secondary),
            _ => None,
        }
    }
}

/// Converts a physical mouse button to a toolkit pointer button, if one of
/// the three mapped buttons; forward, back and other side buttons yield
/// `None` and must not be forwarded.
pub fn convert_button(b: MouseButton) -> (r: Option<PointerButton>)
    ensures
        r == spec_convert_button(b),
{
    ButtonWrapper(b).button()
}

/// The physical button a raw event code denotes, following the common
/// evdev code assignment; codes outside the table yield `None`.
pub open spec fn spec_button_from_code(code: u32) -> Option<MouseButton> {
    if code == 0x110 {
        Some(MouseButton::Left)
    } else if code == 0x111 {
        Some(MouseButton::Right)
    } else if code == 0x112 {
        Some(MouseButton::Middle)
    } else if code == 0x115 {
        Some(MouseButton::Forward)
    } else if code == 0x116 {
        Some(MouseButton::Back)
    } else {
        None
    }
}

/// Maps a raw pointer-button event code to the physical button it denotes.
pub fn button_from_code(code: u32) -> (r: Option<MouseButton>)
    ensures
        r == spec_button_from_code(code),
{
    if code == 0x110 {
        Some(MouseButton::Left)
    } else if code == 0x111 {
        Some(MouseButton::Right)
    } else if code == 0x112 {
        Some(MouseButton::Middle)
    } else if code == 0x115 {
        Some(MouseButton::Forward)
    } else if code == 0x116 {
        Some(MouseButton::Back)
    } else {
        None
    }
}

/// One queued input event in the GUI toolkit's vocabulary. Pointer
/// coordinates are in integer logical pixels; scroll amounts are discrete
/// steps (positive is up/left, matching the toolkit's sign convention).
#[derive(Clone, PartialEq, Eq, Debug)]
pub enum Event {
    PointerMoved { x: i32, y: i32 },
    PointerButton { x: i32, y: i32, button: PointerButton, pressed: bool, modifiers: Modifiers },
    Key { key: Key, pressed: bool, modifiers: Modifiers },
    Text(String),
    MouseWheel { x: i32, y: i32, modifiers: Modifiers },
    PointerGone,
}

/// The keysym alternatives and raw code of one key the hardware holds down,
/// as supplied by a focus-gain notification.
#[derive(Clone, PartialEq, Eq, Debug)]
pub struct KeyHandle {
    pub code: u32,
    pub syms: Vec<u32>,
}

} // verus!
