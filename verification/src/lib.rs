//! Verified core of an adapter that embeds an immediate-mode GUI toolkit in a
//! Wayland compositor. The compositor side delivers raw input (keysyms,
//! pointer coordinates, button codes, modifier state); this crate translates
//! them into the toolkit's event vocabulary, queues them for the next frame,
//! tracks pressed keys across focus changes, and plans the GPU work for
//! painting the toolkit's clipped meshes (texture-cache maintenance, damage
//! merging, scissored draw calls). The GPU, windowing and keyboard-layout
//! calls themselves are issued by a thin unverified shell around this crate.
use vstd::prelude::*;

pub mod geometry;
pub mod input;
pub mod rendering;

use crate::geometry::Rect;
use crate::input::Event;
use crate::input::Key;
use crate::input::KeyHandle;
use crate::input::Modifiers;
use crate::input::ModifiersState;
use crate::input::MouseButton;
use crate::input::spec_convert_button;
use crate::input::spec_convert_key;
use crate::input::spec_convert_modifiers;
use crate::input::convert_button;
use crate::input::convert_key;
use crate::input::convert_modifiers;

verus! {

#[verifier::external_type_specification]
#[verifier::external_body]
pub struct ExContext(egui::Context);

#[verifier::external_type_specification]
#[verifier::external_body]
pub struct ExPlatformOutput(egui::PlatformOutput);

/// Relies on egui's `Context::default`: creates a fresh toolkit context.
#[verifier::external_body]
fn new_context() -> egui::Context {
    egui::Context::default()
}

/// Relies on egui's `Context::egui_wants_keyboard_input`: whether the
/// toolkit is currently listening for text input. Nothing can be promised
/// of the answer; it depends on the toolkit's internal widget state.
pub assume_specification[ egui::Context::egui_wants_keyboard_input ](ctx: &egui::Context) -> (r:
    bool);

/// Relies on egui's `Context::egui_wants_pointer_input`: whether the
/// toolkit is currently interested in the pointer. Nothing can be promised
/// of the answer; it depends on the toolkit's internal widget state.
pub assume_specification[ egui::Context::egui_wants_pointer_input ](ctx: &egui::Context) -> (r:
    bool);

/// The default stacking height of the drawn surface among the compositor's
/// render elements (its overlay layer).
pub const OVERLAY_ZINDEX: u8 = 60;

/// One key this surface believes is held down: its raw physical code and
/// the logical key it mapped to, if any.
#[derive(Clone, Copy, PartialEq, Eq, Structural, Debug)]
pub struct PressedKey {
    pub key: Option<Key>,
    pub code: u32,
}

/// The key event a keystroke contributes to the queue: one `Key` event when
/// the keysyms map to a logical key, nothing otherwise.
pub open spec fn spec_key_events(k: Option<Key>, pressed: bool, m: Modifiers) -> Seq<Event> {
    match k {
        Some(key) => seq![Event::Key { key, pressed, modifiers: m }],
        None => Seq::empty(),
    }
}

/// The text event composed text contributes to the queue: one `Text` event
/// carrying it, or nothing when no text was composed.
pub open spec fn spec_text_events(c: Option<String>) -> Seq<Event> {
    match c {
        Some(s) => seq![Event::Text(s)],
        None => Seq::empty(),
    }
}

/// The pressed-key list after a key-up of `code`: every entry with that
/// raw code is dropped, the order of the rest is kept.
pub open spec fn spec_remove_code(p: Seq<PressedKey>, code: u32) -> Seq<PressedKey>
    decreases p.len(),
{
    if p.len() == 0 {
        Seq::empty()
    } else {
        let rest = spec_remove_code(p.skip(1), code);
        if p[0].code == code {
            rest
        } else {
            seq![p[0]] + rest
        }
    }
}

/// The key-down events synthesized when focus arrives with keys already
/// held: one per held key that maps to a logical key, in hardware order.
pub open spec fn spec_enter_events(held: Seq<KeyHandle>, m: Modifiers) -> Seq<Event>
    decreases held.len(),
{
    if held.len() == 0 {
        Seq::empty()
    } else {
        spec_key_events(spec_convert_key(held[0].syms@), true, m) + spec_enter_events(
            held.skip(1),
            m,
        )
    }
}

/// The pressed-key entries recorded when focus arrives with keys already
/// held, in hardware order.
pub open spec fn spec_enter_pressed(held: Seq<KeyHandle>) -> Seq<PressedKey>
    decreases held.len(),
{
    if held.len() == 0 {
        Seq::empty()
    } else {
        seq![PressedKey { key: spec_convert_key(held[0].syms@), code: held[0].code }]
            + spec_enter_pressed(held.skip(1))
    }
}

/// The raw codes of a focus-gain key list, in order.
pub open spec fn spec_handle_codes(held: Seq<KeyHandle>) -> Seq<u32>
    decreases held.len(),
{
    if held.len() == 0 {
        Seq::empty()
    } else {
        seq![held[0].code] + spec_handle_codes(held.skip(1))
    }
}

/// The key-up events synthesized on focus loss: one per still-pressed entry
/// that mapped to a logical key, in press order.
pub open spec fn spec_leave_events(p: Seq<PressedKey>, m: Modifiers) -> Seq<Event>
    decreases p.len(),
{
    if p.len() == 0 {
        Seq::empty()
    } else {
        spec_key_events(p[0].key, false, m) + spec_leave_events(p.skip(1), m)
    }
}

/// The raw codes of the pressed-key list, in press order.
pub open spec fn spec_pressed_codes(p: Seq<PressedKey>) -> Seq<u32>
    decreases p.len(),
{
    if p.len() == 0 {
        Seq::empty()
    } else {
        seq![p[0].code] + spec_pressed_codes(p.skip(1))
    }
}

/// How many pressed entries carry a mapped logical key.
pub open spec fn spec_count_mapped(p: Seq<PressedKey>) -> int
    decreases p.len(),
{
    if p.len() == 0 {
        0int
    } else {
        (if p[0].key is Some {
            1int
        } else {
            0int
        }) + spec_count_mapped(p.skip(1))
    }
}

/// Focus-loss key release: the number of synthesized key-up events equals
/// the number of still-pressed keys with a mapped logical key, every
/// synthesized event is a key-up, and one composition key-up feed is owed
/// per pressed entry, mapped or not.
pub proof fn lemma_focus_loss_release_count(p: Seq<PressedKey>, m: Modifiers)
    ensures
        spec_leave_events(p, m).len() == spec_count_mapped(p),
        spec_count_mapped(p) <= p.len(),
        spec_pressed_codes(p).len() == p.len(),
        forall|k: int|
            0 <= k < spec_leave_events(p, m).len() ==> (#[trigger] spec_leave_events(p, m)[k])
                matches Event::Key { pressed: false, .. },
    decreases p.len(),
{
    if p.len() > 0 {
        lemma_focus_loss_release_count(p.skip(1), m);
        let head = spec_key_events(p[0].key, false, m);
        let rest = spec_leave_events(p.skip(1), m);
        assert forall|k: int| 0 <= k < spec_leave_events(p, m).len() implies (
        #[trigger] spec_leave_events(p, m)[k]) matches Event::Key { pressed: false, .. } by {
            if k < head.len() {
                assert(spec_leave_events(p, m)[k] == head[k]);
            } else {
                assert(spec_leave_events(p, m)[k] == rest[k - head.len()]);
            }
        }
    }
}

/// The input batch handed to the toolkit for one frame, drained atomically
/// from the queue, plus the frame facts the shell needs.
#[derive(Clone, PartialEq, Eq, Debug)]
pub struct FrameInput {
    pub events: Vec<Event>,
    pub modifiers: Modifiers,
    pub focused: bool,
    pub needs_recreate: bool,
}

/// The shared state of one embeddable GUI surface. The embedding shell owns
/// it behind a single mutual-exclusion lock, so input handlers (called from
/// the compositor's input thread) and the per-frame drain (called from the
/// render thread) never race; no method holds the lock across GPU work.
pub struct EguiState {
    pub ctx: egui::Context,
    pub pointers: usize,
    pub last_pointer_x: i32,
    pub last_pointer_y: i32,
    pub area: Rect,
    pub last_modifiers: ModifiersState,
    pub last_output: Option<egui::PlatformOutput>,
    pub pressed: Vec<PressedKey>,
    pub focused: bool,
    pub events: Vec<Event>,
    pub z_index: u8,
}

impl EguiState {
    /// A fresh surface over the given drawing area: empty queue, nothing
    /// pressed, unfocused, no pointers, modifiers clear.
    pub fn new(area: Rect) -> (s: EguiState)
        requires
            area.wf(),
        ensures
            s.pointers == 0,
            s.last_pointer_x == 0,
            s.last_pointer_y == 0,
            s.area == area,
            s.last_modifiers == crate::input::spec_modifiers_none(),
            s.last_output is None,
            s.pressed@ == Seq::<PressedKey>::empty(),
            !s.focused,
            s.events@ == Seq::<Event>::empty(),
            s.z_index == OVERLAY_ZINDEX,
    {
        EguiState {
            ctx: new_context(),
            pointers: 0,
            last_pointer_x: 0,
            last_pointer_y: 0,
            area,
            last_modifiers: ModifiersState::none(),
            last_output: None,
            pressed: Vec::new(),
            focused: false,
            events: Vec::new(),
            z_index: OVERLAY_ZINDEX,
        }
    }

    /// The underlying toolkit context, for the shell's per-frame update.
    pub fn context(&self) -> (c: &egui::Context)
        ensures
            *c == self.ctx,
    {
        &self.ctx
    }

    /// Whether the toolkit is currently listening for text input; hosts use
    /// this to decide whether to also forward keys to other consumers.
    pub fn wants_keyboard(&self) -> bool {
        self.ctx.egui_wants_keyboard_input()
    }

    /// Whether the toolkit is currently interested in the pointer.
    pub fn wants_pointer(&self) -> bool {
        self.ctx.egui_wants_pointer_input()
    }

    /// Records an added input device; only pointer-capable devices count.
    pub fn handle_device_added(&mut self, has_pointer: bool)
        requires
            old(self).pointers < usize::MAX,
        ensures
            final(self).pointers == old(self).pointers + (if has_pointer {
                1int
            } else {
                0int
            }),
            final(self).ctx == old(self).ctx,
            final(self).last_pointer_x == old(self).last_pointer_x,
            final(self).last_pointer_y == old(self).last_pointer_y,
            final(self).area == old(self).area,
            final(self).last_modifiers == old(self).last_modifiers,
            final(self).last_output == old(self).last_output,
            final(self).pressed@ == old(self).pressed@,
            final(self).focused == old(self).focused,
            final(self).events@ == old(self).events@,
            final(self).z_index == old(self).z_index,
    {
        if has_pointer {
            self.pointers = self.pointers + 1;
        }
    }

    /// Records a removed input device; when the last pointer-capable device
    /// goes away, a pointer-gone event is queued so the toolkit drops any
    /// hover state.
    pub fn handle_device_removed(&mut self, has_pointer: bool)
        requires
            has_pointer ==> old(self).pointers > 0,
        ensures
            final(self).pointers == old(self).pointers - (if has_pointer {
                1int
            } else {
                0int
            }),
            final(self).events@ == if final(self).pointers == 0 {
                old(self).events@.push(Event::PointerGone)
            } else {
                old(self).events@
            },
            final(self).ctx == old(self).ctx,
            final(self).last_pointer_x == old(self).last_pointer_x,
            final(self).last_pointer_y == old(self).last_pointer_y,
            final(self).area == old(self).area,
            final(self).last_modifiers == old(self).last_modifiers,
            final(self).last_output == old(self).last_output,
            final(self).pressed@ == old(self).pressed@,
            final(self).focused == old(self).focused,
            final(self).z_index == old(self).z_index,
    {
        if has_pointer {
            self.pointers = self.pointers - 1;
        }
        if self.pointers == 0 {
            self.events.push(Event::PointerGone);
        }
    }

    /// Feeds one physical keystroke: remembers the modifier state, queues a
    /// `Key` event when the keysyms map to a logical key, updates the
    /// pressed-key bookkeeping, and queues a `Text` event carrying the
    /// composed text the shell read from its keyboard-layout engine (the
    /// shell passes `None` on release or when nothing was composed).
    pub fn handle_keyboard(
        &mut self,
        syms: &Vec<u32>,
        raw_code: u32,
        pressed: bool,
        modifiers: ModifiersState,
        composed: Option<String>,
    )
        ensures
            final(self).last_modifiers == modifiers,
            final(self).events@ == old(self).events@ + spec_key_events(
                spec_convert_key(syms@),
                pressed,
                spec_convert_modifiers(modifiers),
            ) + spec_text_events(composed),
            final(self).pressed@ == if pressed {
                old(self).pressed@.push(PressedKey { key: spec_convert_key(syms@), code: raw_code })
            } else {
                spec_remove_code(old(self).pressed@, raw_code)
            },
            final(self).ctx == old(self).ctx,
            final(self).pointers == old(self).pointers,
            final(self).last_pointer_x == old(self).last_pointer_x,
            final(self).last_pointer_y == old(self).last_pointer_y,
            final(self).area == old(self).area,
            final(self).last_output == old(self).last_output,
            final(self).focused == old(self).focused,
            final(self).z_index == old(self).z_index,
    {
        self.last_modifiers = modifiers;
        let key: Option<Key> = convert_key(syms);
        match key {
            Some(k) => {
                let m: Modifiers = convert_modifiers(modifiers);
                self.events.push(Event::Key { key: k, pressed, modifiers: m });
            },
            None => {},
        }
        if pressed {
            self.pressed.push(PressedKey { key, code: raw_code });
        } else {
            let ghost pre = self.pressed@;
            let n: usize = self.pressed.len();
            let mut kept: Vec<PressedKey> = Vec::new();
            let mut i: usize = 0;
            proof {
                assert(pre.skip(0) =~= pre);
            }
            while i < n
                invariant
                    0 <= i <= n,
                    n == pre.len(),
                    self.pressed@ == pre,
                    spec_remove_code(pre, raw_code) == kept@ + spec_remove_code(
                        pre.skip(i as int),
                        raw_code,
                    ),
                decreases n - i,
            {
                let ghost pre_kept = kept@;
                let e: PressedKey = self.pressed[i];
                if e.code != raw_code {
                    kept.push(e);
                }
                proof {
                    let suffix = pre.skip(i as int);
                    assert(suffix[0] == pre[i as int]);
                    assert(suffix.skip(1) =~= pre.skip(i as int + 1));
                    if e.code != raw_code {
                        assert(kept@ =~= pre_kept + seq![pre[i as int]]);
                    }
                }
                i = i + 1;
            }
            proof {
                assert(pre.skip(n as int) =~= Seq::<PressedKey>::empty());
            }
            self.pressed = kept;
        }
        match composed {
            Some(s) => {
                self.events.push(Event::Text(s));
            },
            None => {},
        }
    }

    /// Remembers the pointer position and queues a pointer-moved event.
    pub fn handle_pointer_motion(&mut self, x: i32, y: i32)
        ensures
            final(self).last_pointer_x == x,
            final(self).last_pointer_y == y,
            final(self).events@ == old(self).events@.push(Event::PointerMoved { x, y }),
            final(self).ctx == old(self).ctx,
            final(self).pointers == old(self).pointers,
            final(self).area == old(self).area,
            final(self).last_modifiers == old(self).last_modifiers,
            final(self).last_output == old(self).last_output,
            final(self).pressed@ == old(self).pressed@,
            final(self).focused == old(self).focused,
            final(self).z_index == old(self).z_index,
    {
        self.last_pointer_x = x;
        self.last_pointer_y = y;
        self.events.push(Event::PointerMoved { x, y });
    }

    /// Queues a pointer-button event at the last known pointer position,
    /// stamped with the current modifiers; a button with no toolkit
    /// equivalent is dropped and nothing is queued.
    pub fn handle_pointer_button(&mut self, button: MouseButton, pressed: bool)
        ensures
            final(self).events@ == old(self).events@ + (match spec_convert_button(button) {
                Some(b) => seq![
                    Event::PointerButton {
                        x: old(self).last_pointer_x,
                        y: old(self).last_pointer_y,
                        button: b,
                        pressed,
                        modifiers: spec_convert_modifiers(old(self).last_modifiers),
                    },
                ],
                None => Seq::<Event>::empty(),
            }),
            final(self).ctx == old(self).ctx,
            final(self).pointers == old(self).pointers,
            final(self).last_pointer_x == old(self).last_pointer_x,
            final(self).last_pointer_y == old(self).last_pointer_y,
            final(self).area == old(self).area,
            final(self).last_modifiers == old(self).last_modifiers,
            final(self).last_output == old(self).last_output,
            final(self).pressed@ == old(self).pressed@,
            final(self).focused == old(self).focused,
            final(self).z_index == old(self).z_index,
    {
        match convert_button(button) {
            Some(b) => {
                let m: Modifiers = convert_modifiers(self.last_modifiers);
                self.events.push(
                    Event::PointerButton {
                        x: self.last_pointer_x,
                        y: self.last_pointer_y,
                        button: b,
                        pressed,
                        modifiers: m,
                    },
                );
            },
            None => {},
        }
    }

    /// Queues a scroll event of whole discrete steps, stamped with the
    /// current modifiers. This surface fixes the discrete convention: the
    /// steps reported by the compositor are forwarded unscaled, and the
    /// shell maps them onto the toolkit's native line-scroll unit.
    pub fn handle_pointer_axis(&mut self, x_steps: i32, y_steps: i32)
        ensures
            final(self).events@ == old(self).events@.push(
                Event::MouseWheel {
                    x: x_steps,
                    y: y_steps,
                    modifiers: spec_convert_modifiers(old(self).last_modifiers),
                },
            ),
            final(self).ctx == old(self).ctx,
            final(self).pointers == old(self).pointers,
            final(self).last_pointer_x == old(self).last_pointer_x,
            final(self).last_pointer_y == old(self).last_pointer_y,
            final(self).area == old(self).area,
            final(self).last_modifiers == old(self).last_modifiers,
            final(self).last_output == old(self).last_output,
            final(self).pressed@ == old(self).pressed@,
            final(self).focused == old(self).focused,
            final(self).z_index == old(self).z_index,
    {
        let m: Modifiers = convert_modifiers(self.last_modifiers);
        self.events.push(Event::MouseWheel { x: x_steps, y: y_steps, modifiers: m });
    }

    /// Sets whether this surface considers itself focused.
    pub fn set_focused(&mut self, focused: bool)
        ensures
            final(self).focused == focused,
            final(self).ctx == old(self).ctx,
            final(self).pointers == old(self).pointers,
            final(self).last_pointer_x == old(self).last_pointer_x,
            final(self).last_pointer_y == old(self).last_pointer_y,
            final(self).area == old(self).area,
            final(self).last_modifiers == old(self).last_modifiers,
            final(self).last_output == old(self).last_output,
            final(self).pressed@ == old(self).pressed@,
            final(self).events@ == old(self).events@,
            final(self).z_index == old(self).z_index,
    {
        self.focused = focused;
    }

    /// Remembers a modifier-state change notification.
    pub fn set_modifiers(&mut self, modifiers: ModifiersState)
        ensures
            final(self).last_modifiers == modifiers,
            final(self).ctx == old(self).ctx,
            final(self).pointers == old(self).pointers,
            final(self).last_pointer_x == old(self).last_pointer_x,
            final(self).last_pointer_y == old(self).last_pointer_y,
            final(self).area == old(self).area,
            final(self).last_output == old(self).last_output,
            final(self).pressed@ == old(self).pressed@,
            final(self).focused == old(self).focused,
            final(self).events@ == old(self).events@,
            final(self).z_index == old(self).z_index,
    {
        self.last_modifiers = modifiers;
    }

    /// Focus arrives with keys already held by the hardware: marks the
    /// surface focused, synthesizes a key-down per held key (queued when
    /// mapped, recorded in the pressed bookkeeping either way), and returns
    /// the raw codes the shell must feed, in order, as key-downs to its
    /// keyboard-layout engine.
    pub fn enter(&mut self, held: &Vec<KeyHandle>) -> (codes: Vec<u32>)
        ensures
            final(self).focused,
            final(self).events@ == old(self).events@ + spec_enter_events(
                held@,
                spec_convert_modifiers(old(self).last_modifiers),
            ),
            final(self).pressed@ == old(self).pressed@ + spec_enter_pressed(held@),
            codes@ == spec_handle_codes(held@),
            final(self).ctx == old(self).ctx,
            final(self).pointers == old(self).pointers,
            final(self).last_pointer_x == old(self).last_pointer_x,
            final(self).last_pointer_y == old(self).last_pointer_y,
            final(self).area == old(self).area,
            final(self).last_modifiers == old(self).last_modifiers,
            final(self).last_output == old(self).last_output,
            final(self).z_index == old(self).z_index,
    {
        self.focused = true;
        let ghost pre_events = self.events@;
        let ghost pre_pressed = self.pressed@;
        let ghost m = spec_convert_modifiers(self.last_modifiers);
        let mut codes: Vec<u32> = Vec::new();
        let n: usize = held.len();
        let mut i: usize = 0;
        proof {
            assert(held@.skip(0) =~= held@);
        }
        while i < n
            invariant
                0 <= i <= n,
                n == held@.len(),
                self.last_modifiers == old(self).last_modifiers,
                m == spec_convert_modifiers(self.last_modifiers),
                pre_events + spec_enter_events(held@, m) == self.events@ + spec_enter_events(
                    held@.skip(i as int),
                    m,
                ),
                pre_pressed + spec_enter_pressed(held@) == self.pressed@ + spec_enter_pressed(
                    held@.skip(i as int),
                ),
                spec_handle_codes(held@) == codes@ + spec_handle_codes(held@.skip(i as int)),
                self.focused,
                self.ctx == old(self).ctx,
                self.pointers == old(self).pointers,
                self.last_pointer_x == old(self).last_pointer_x,
                self.last_pointer_y == old(self).last_pointer_y,
                self.area == old(self).area,
                self.last_output == old(self).last_output,
                self.z_index == old(self).z_index,
            decreases n - i,
        {
            let ghost ev_pre = self.events@;
            let ghost pr_pre = self.pressed@;
            let ghost co_pre = codes@;
            let handle: &KeyHandle = &held[i];
            let key: Option<Key> = convert_key(&handle.syms);
            match key {
                Some(k) => {
                    let mm: Modifiers = convert_modifiers(self.last_modifiers);
                    self.events.push(Event::Key { key: k, pressed: true, modifiers: mm });
                },
                None => {},
            }
            self.pressed.push(PressedKey { key, code: handle.code });
            codes.push(handle.code);
            proof {
                let suffix = held@.skip(i as int);
                assert(suffix[0] == held@[i as int]);
                assert(suffix.skip(1) =~= held@.skip(i as int + 1));
                assert(self.events@ =~= ev_pre + spec_key_events(
                    spec_convert_key(held@[i as int].syms@),
                    true,
                    m,
                ));
                assert(self.pressed@ =~= pr_pre + seq![
                    PressedKey {
                        key: spec_convert_key(held@[i as int].syms@),
                        code: held@[i as int].code,
                    },
                ]);
                assert(codes@ =~= co_pre + seq![held@[i as int].code]);
            }
            i = i + 1;
        }
        proof {
            assert(held@.skip(n as int) =~= Seq::<KeyHandle>::empty());
            assert(self.events@ =~= pre_events + spec_enter_events(held@, m));
            assert(self.pressed@ =~= pre_pressed + spec_enter_pressed(held@));
        }
        codes
    }

    /// Focus leaves: marks the surface unfocused, synthesizes a key-up for
    /// every still-pressed key that mapped to a logical key (so the toolkit
    /// never sees a key stuck down), clears the pressed bookkeeping, and
    /// returns the raw codes the shell must feed, in order, as key-ups to
    /// its keyboard-layout engine — one per still-pressed entry.
    pub fn leave(&mut self) -> (codes: Vec<u32>)
        ensures
            !final(self).focused,
            final(self).events@ == old(self).events@ + spec_leave_events(
                old(self).pressed@,
                spec_convert_modifiers(old(self).last_modifiers),
            ),
            final(self).pressed@ == Seq::<PressedKey>::empty(),
            codes@ == spec_pressed_codes(old(self).pressed@),
            final(self).ctx == old(self).ctx,
            final(self).pointers == old(self).pointers,
            final(self).last_pointer_x == old(self).last_pointer_x,
            final(self).last_pointer_y == old(self).last_pointer_y,
            final(self).area == old(self).area,
            final(self).last_modifiers == old(self).last_modifiers,
            final(self).last_output == old(self).last_output,
            final(self).z_index == old(self).z_index,
    {
        self.focused = false;
        let ghost pre_events = self.events@;
        let ghost pre_pressed = self.pressed@;
        let ghost m = spec_convert_modifiers(self.last_modifiers);
        let mut taken: Vec<PressedKey> = Vec::new();
        core::mem::swap(&mut taken, &mut self.pressed);
        let mut codes: Vec<u32> = Vec::new();
        let n: usize = taken.len();
        let mut i: usize = 0;
        proof {
            assert(pre_pressed.skip(0) =~= pre_pressed);
        }
        while i < n
            invariant
                0 <= i <= n,
                n == pre_pressed.len(),
                taken@ == pre_pressed,
                self.last_modifiers == old(self).last_modifiers,
                m == spec_convert_modifiers(self.last_modifiers),
                pre_events + spec_leave_events(pre_pressed, m) == self.events@ + spec_leave_events(
                    pre_pressed.skip(i as int),
                    m,
                ),
                spec_pressed_codes(pre_pressed) == codes@ + spec_pressed_codes(
                    pre_pressed.skip(i as int),
                ),
                self.pressed@ == Seq::<PressedKey>::empty(),
                !self.focused,
                self.ctx == old(self).ctx,
                self.pointers == old(self).pointers,
                self.last_pointer_x == old(self).last_pointer_x,
                self.last_pointer_y == old(self).last_pointer_y,
                self.area == old(self).area,
                self.last_output == old(self).last_output,
                self.z_index == old(self).z_index,
            decreases n - i,
        {
            let ghost ev_pre = self.events@;
            let ghost co_pre = codes@;
            let e: PressedKey = taken[i];
            match e.key {
                Some(k) => {
                    let mm: Modifiers = convert_modifiers(self.last_modifiers);
                    self.events.push(Event::Key { key: k, pressed: false, modifiers: mm });
                },
                None => {},
            }
            codes.push(e.code);
            proof {
                let suffix = pre_pressed.skip(i as int);
                assert(suffix[0] == pre_pressed[i as int]);
                assert(suffix.skip(1) =~= pre_pressed.skip(i as int + 1));
                assert(self.events@ =~= ev_pre + spec_key_events(
                    pre_pressed[i as int].key,
                    false,
                    m,
                ));
                assert(codes@ =~= co_pre + seq![pre_pressed[i as int].code]);
            }
            i = i + 1;
        }
        proof {
            assert(pre_pressed.skip(n as int) =~= Seq::<PressedKey>::empty());
            assert(self.events@ =~= pre_events + spec_leave_events(pre_pressed, m));
        }
        codes
    }

    /// Drains the queue for one frame: every accumulated event leaves, in
    /// arrival order, exactly once — the queue is empty afterwards, so a
    /// later drain cannot hand any of them out again. Also reports the
    /// frame facts the shell needs and adopts the new drawing area,
    /// flagging when its change forces the render buffer to be recreated.
    pub fn begin_frame(&mut self, area: Rect) -> (f: FrameInput)
        requires
            area.wf(),
        ensures
            f.events@ == old(self).events@,
            final(self).events@ == Seq::<Event>::empty(),
            f.modifiers == spec_convert_modifiers(old(self).last_modifiers),
            f.focused == old(self).focused,
            f.needs_recreate == (old(self).area != area),
            final(self).area == area,
            final(self).ctx == old(self).ctx,
            final(self).pointers == old(self).pointers,
            final(self).last_pointer_x == old(self).last_pointer_x,
            final(self).last_pointer_y == old(self).last_pointer_y,
            final(self).last_modifiers == old(self).last_modifiers,
            final(self).last_output == old(self).last_output,
            final(self).pressed@ == old(self).pressed@,
            final(self).focused == old(self).focused,
            final(self).z_index == old(self).z_index,
    {
        let mut batch: Vec<Event> = Vec::new();
        core::mem::swap(&mut batch, &mut self.events);
        let modifiers: Modifiers = convert_modifiers(self.last_modifiers);
        let needs_recreate: bool = !(self.area.x == area.x && self.area.y == area.y && self.area.w
            == area.w && self.area.h == area.h);
        let focused: bool = self.focused;
        self.area = area;
        FrameInput { events: batch, modifiers, focused, needs_recreate }
    }

    /// Stores the platform output of a finished frame for the host.
    pub fn set_last_output(&mut self, output: egui::PlatformOutput)
        ensures
            final(self).last_output == Some(output),
            final(self).ctx == old(self).ctx,
            final(self).pointers == old(self).pointers,
            final(self).last_pointer_x == old(self).last_pointer_x,
            final(self).last_pointer_y == old(self).last_pointer_y,
            final(self).area == old(self).area,
            final(self).last_modifiers == old(self).last_modifiers,
            final(self).pressed@ == old(self).pressed@,
            final(self).focused == old(self).focused,
            final(self).events@ == old(self).events@,
            final(self).z_index == old(self).z_index,
    {
        self.last_output = Some(output);
    }

    /// Hands out the platform output of the last rendered frame exactly
    /// once: the stored value leaves and the slot is cleared.
    pub fn last_output(&mut self) -> (r: Option<egui::PlatformOutput>)
        ensures
            r == old(self).last_output,
            final(self).last_output is None,
            final(self).ctx == old(self).ctx,
            final(self).pointers == old(self).pointers,
            final(self).last_pointer_x == old(self).last_pointer_x,
            final(self).last_pointer_y == old(self).last_pointer_y,
            final(self).area == old(self).area,
            final(self).last_modifiers == old(self).last_modifiers,
            final(self).pressed@ == old(self).pressed@,
            final(self).focused == old(self).focused,
            final(self).events@ == old(self).events@,
            final(self).z_index == old(self).z_index,
    {
        let mut out: Option<egui::PlatformOutput> = None;
        core::mem::swap(&mut out, &mut self.last_output);
        out
    }

    /// The rectangle this surface draws into.
    pub fn bbox(&self) -> (r: Rect)
        ensures
            r == self.area,
    {
        self.area
    }

    /// Whether a point belongs to this surface's input region: only points
    /// near the last known pointer position are considered, and then only
    /// if the toolkit currently wants the pointer.
    pub fn is_in_input_region(&self, x: i32, y: i32) -> (r: bool)
        ensures
            (x - self.last_pointer_x) + (y - self.last_pointer_y) >= 10 ==> !r,
    {
        let dx: i64 = x as i64 - self.last_pointer_x as i64;
        let dy: i64 = y as i64 - self.last_pointer_y as i64;
        if dx + dy < 10 {
            self.wants_pointer()
        } else {
            false
        }
    }

    /// Sets the stacking height this surface reports to the compositor.
    pub fn set_zindex(&mut self, idx: u8)
        ensures
            final(self).z_index == idx,
            final(self).ctx == old(self).ctx,
            final(self).pointers == old(self).pointers,
            final(self).last_pointer_x == old(self).last_pointer_x,
            final(self).last_pointer_y == old(self).last_pointer_y,
            final(self).area == old(self).area,
            final(self).last_modifiers == old(self).last_modifiers,
            final(self).last_output == old(self).last_output,
            final(self).pressed@ == old(self).pressed@,
            final(self).focused == old(self).focused,
            final(self).events@ == old(self).events@,
    {
        self.z_index = idx;
    }

    /// The stacking height this surface reports to the compositor.
    pub fn z_index(&self) -> (r: u8)
        ensures
            r == self.z_index,
    {
        self.z_index
    }
}

} // verus!
