//! The modal input state machine: typed keys accumulate in a buffer until
//! they resolve, against the keymap of the current mode, to an action.
use vstd::prelude::*;
use crate::actions::{count_spec, with_select_spec, Action, Mode};
use crate::keymap::{
    lemma_resolves_to_noop, op_motion_spec, peek_action, resolve_action, resolve_op_motion_action,
    resolved_buffer, resolves_to, resolves_to_noop, without_count, KeyBuffer, KeyCombo, KeyPattern,
    Keymap, normalize_shift, bind_all_spec, default_op_bindings, default_motion_bindings,
    default_normal_bindings, default_mode_bindings, default_insert_bindings, default_visual_bindings,
};
use crate::keys::{KeyCode, KeyEvent, KeyEventKind, KeyModifiers, no_modifiers};
use crate::text_util::char_to_string;

verus! {

/// What the screen needs after an event.
#[derive(Clone, Copy, Debug, PartialEq, Eq, Structural)]
pub enum HandleEvent {
    Redraw,
    RedrawAndSync,
    NoRedraw,
    Exit,
}

/// The input state that other parts of the editor see.
#[derive(Clone, Copy, Debug, PartialEq, Eq, Structural)]
pub struct InputContext {
    pub mode: Mode,
}

impl InputContext {
    pub fn new() -> (c: InputContext)
        ensures
            c.mode == Mode::Normal,
    {
        InputContext { mode: Mode::Normal }
    }
}

/// Insert and command mode take typed text.
pub open spec fn takes_text(mode: Mode) -> bool {
    mode == Mode::Insert || mode == Mode::Command
}

/// A key that types its character: a character key with no modifier, or
/// with shift alone.
pub open spec fn typed_char(c: KeyCombo) -> bool {
    &&& c.code is Char
    &&& (c.modifiers == no_modifiers() || c.modifiers == (KeyModifiers { shift: true, ..no_modifiers() }))
}

/// The mode after a mode-change binding resolved to `a`.
pub open spec fn mode_after_change(mode: Mode, a: Action) -> Mode {
    match a {
        Action::SetToInsert => Mode::Insert,
        Action::SetToVisual => Mode::Visual,
        Action::SetToCommand => Mode::Command,
        _ => mode,
    }
}

/// The mode after an insert-mode or visual-mode binding resolved to `a`:
/// `Clear` returns to normal mode.
pub open spec fn mode_after_clear(mode: Mode, a: Action) -> Mode {
    if a is Clear {
        Mode::Normal
    } else {
        mode
    }
}

/// The state of the input machine as its contracts see it.
pub struct InputState {
    pub mode: Mode,
    pub buffer: Seq<KeyCombo>,
    pub resolved_motion: Action,
    pub resolved_op: Action,
    pub resolved_action: Action,
}

/// One step in insert or command mode, from buffer `b` with the insert
/// bindings `ins`, to state `t` returning `r`: a binding wins; else the last
/// key, if it types a character, is inserted; else nothing happens.
pub open spec fn insert_step(mode: Mode, b: Seq<KeyCombo>, ins: Seq<(Seq<KeyPattern>, Action)>, t: InputState, r: Action) -> bool {
    &&& t.resolved_motion is NoOp
    &&& t.resolved_op is NoOp
    &&& t.resolved_action == r
    &&& if !resolves_to_noop(b, ins) {
        &&& resolves_to(b, ins, r)
        &&& t.mode == mode_after_clear(mode, r)
        &&& t.buffer.len() == 0
    } else {
        let b1 = resolved_buffer(b, ins);
        &&& t.mode == mode
        &&& if b1.len() > 0 && typed_char(b1.last()) {
            &&& r is InsertText
            &&& r->InsertText_0@ == seq![b1.last().code->Char_0]
            &&& t.buffer.len() == 0
        } else {
            &&& r is NoOp
            &&& t.buffer == b1
        }
    }
}

/// One step in normal or visual mode from buffer `c`: a motion (with the
/// operator typed before it) wins, then a normal-mode command, then a mode
/// change; else the operator typed so far, if any, is shown as pending.
pub open spec fn command_step(mode: Mode, c: Seq<KeyCombo>, km: Keymap, t: InputState, r: Action) -> bool {
    let visual = mode is Visual || mode is VisualLine || mode is VisualBlock;
    let w = resolved_buffer(c, km.motion_actions@);
    if visual || !resolves_to_noop(c, km.motion_actions@) {
        &&& t.mode == mode
        &&& t.buffer.len() == 0
        &&& exists|m0: Action| #[trigger] resolves_to(c, km.motion_actions@, m0) && t.resolved_motion == (if visual {
            with_select_spec(if m0 is NoOp { Action::StandBy { count: 0, select: true } } else { m0 }, true)
        } else {
            m0
        })
        &&& if !resolves_to_noop(w, km.op_actions@) {
            &&& resolves_to(w, km.op_actions@, t.resolved_op)
            &&& t.resolved_action == op_motion_spec(t.resolved_motion, t.resolved_op)
        } else {
            &&& t.resolved_op is NoOp
            &&& t.resolved_action == t.resolved_motion
        }
        &&& r == t.resolved_action
    } else if !resolves_to_noop(c, km.normal_actions@) {
        &&& resolves_to(c, km.normal_actions@, r)
        &&& t.mode == mode
        &&& t.buffer.len() == 0
        &&& t.resolved_motion is NoOp
        &&& t.resolved_op == r
        &&& t.resolved_action == r
    } else if !resolves_to_noop(c, km.mode_actions@) {
        &&& resolves_to(c, km.mode_actions@, r)
        &&& t.mode == mode_after_change(mode, r)
        &&& t.buffer.len() == 0
        &&& t.resolved_motion is NoOp
        &&& t.resolved_op is NoOp
        &&& t.resolved_action == r
    } else {
        &&& t.mode == mode
        &&& t.buffer == c
        &&& t.resolved_motion is NoOp
        &&& resolves_to(without_count(c), km.op_actions@, t.resolved_op)
        &&& t.resolved_action is NoOp
        &&& r is NoOp
    }
}

/// In insert and command mode a key that resolves to an insert binding
/// returns the machine to normal mode exactly when the binding is `Clear`
/// (`Esc`); any other binding keeps the mode.
pub proof fn law_clear_leaves_insert_mode(
    mode: Mode,
    b: Seq<KeyCombo>,
    ins: Seq<(Seq<KeyPattern>, Action)>,
    t: InputState,
    r: Action,
)
    requires
        insert_step(mode, b, ins, t, r),
        !resolves_to_noop(b, ins),
    ensures
        r is Clear ==> t.mode == Mode::Normal,
        !(r is Clear) ==> t.mode == mode,
{
}

/// In a visual mode a key that resolves to a visual binding returns the
/// machine to normal mode exactly when the binding is `Clear`.
pub proof fn law_clear_leaves_visual_mode(mode: Mode, b: Seq<KeyCombo>, km: Keymap, t: InputState, r: Action)
    requires
        mode is Visual || mode is VisualLine || mode is VisualBlock,
        normal_step(mode, b, km, t, r),
        !resolves_to_noop(b, km.visual_actions@),
    ensures
        r is Clear ==> t.mode == Mode::Normal,
        !(r is Clear) ==> t.mode == mode,
{
}

/// In normal mode, keys that resolve to a mode-change binding (and to no
/// motion or normal-mode command) switch the machine to the mode they name:
/// `SetToInsert` to insert mode, `SetToVisual` to visual mode,
/// `SetToCommand` to command mode; any other binding keeps normal mode.
pub proof fn law_mode_bindings_switch_the_mode(c: Seq<KeyCombo>, km: Keymap, t: InputState, r: Action)
    requires
        command_step(Mode::Normal, c, km, t, r),
        resolves_to_noop(c, km.motion_actions@),
        resolves_to_noop(c, km.normal_actions@),
        !resolves_to_noop(c, km.mode_actions@),
    ensures
        resolves_to(c, km.mode_actions@, r),
        r is SetToInsert ==> t.mode == Mode::Insert,
        r is SetToVisual ==> t.mode == Mode::Visual,
        r is SetToCommand ==> t.mode == Mode::Command,
        !(r is SetToInsert || r is SetToVisual || r is SetToCommand) ==> t.mode == Mode::Normal,
        t.buffer.len() == 0,
{
}

/// One step outside insert and command mode from buffer `b`: in a visual
/// mode a visual binding wins first; the rest is [`command_step`] on what
/// is left of the buffer.
pub open spec fn normal_step(mode: Mode, b: Seq<KeyCombo>, km: Keymap, t: InputState, r: Action) -> bool {
    let visual = mode is Visual || mode is VisualLine || mode is VisualBlock;
    if visual && !resolves_to_noop(b, km.visual_actions@) {
        &&& resolves_to(b, km.visual_actions@, r)
        &&& t.mode == mode_after_clear(mode, r)
        &&& t.buffer.len() == 0
        &&& t.resolved_motion is NoOp
        &&& t.resolved_op is NoOp
        &&& t.resolved_action == r
    } else {
        command_step(mode, if visual { resolved_buffer(b, km.visual_actions@) } else { b }, km, t, r)
    }
}

/// The input machine: the mode, the keys not yet resolved, what the last
/// keys resolved to, and the keymap.
pub struct VimInput {
    pub mode: Mode,
    pub buffer: KeyBuffer,
    pub resolved_motion: Action,
    pub resolved_op: Action,
    pub resolved_action: Action,
    pub keymap: Keymap,
}

impl VimInput {
    /// The contract's view of the machine's state.
    pub open spec fn state(&self) -> InputState {
        InputState {
            mode: self.mode,
            buffer: self.buffer.items@,
            resolved_motion: self.resolved_motion,
            resolved_op: self.resolved_op,
            resolved_action: self.resolved_action,
        }
    }

    /// A machine in normal mode with an empty buffer and the default keymap.
    pub fn new() -> (v: VimInput)
        ensures
            v.mode == Mode::Normal,
            v.buffer.items@.len() == 0,
            v.resolved_motion is NoOp,
            v.resolved_op is NoOp,
            v.resolved_action is NoOp,
            v.keymap.op_actions@ == bind_all_spec(Seq::empty(), default_op_bindings()),
            v.keymap.motion_actions@ == bind_all_spec(Seq::empty(), default_motion_bindings()),
            v.keymap.normal_actions@ == bind_all_spec(Seq::empty(), default_normal_bindings()),
            v.keymap.mode_actions@ == bind_all_spec(Seq::empty(), default_mode_bindings()),
            v.keymap.insert_actions@ == bind_all_spec(Seq::empty(), default_insert_bindings()),
            v.keymap.visual_actions@ == bind_all_spec(Seq::empty(), default_visual_bindings()),
    {
        VimInput {
            mode: Mode::Normal,
            buffer: KeyBuffer::new(),
            resolved_motion: Action::NoOp,
            resolved_op: Action::NoOp,
            resolved_action: Action::NoOp,
            keymap: Keymap::new(),
        }
    }

    /// Forgets what the last keys resolved to.
    pub fn clear_resolved(&mut self)
        ensures
            final(self).mode == old(self).mode,
            final(self).buffer.items@ == old(self).buffer.items@,
            final(self).keymap == old(self).keymap,
            final(self).resolved_motion is NoOp,
            final(self).resolved_op is NoOp,
            final(self).resolved_action is NoOp,
    {
        self.resolved_motion = Action::NoOp;
        self.resolved_op = Action::NoOp;
        self.resolved_action = Action::NoOp;
    }

    /// Forgets the pending keys and what the last keys resolved to.
    pub fn clear(&mut self)
        ensures
            final(self).mode == old(self).mode,
            final(self).buffer.items@.len() == 0,
            final(self).keymap == old(self).keymap,
            final(self).resolved_motion is NoOp,
            final(self).resolved_op is NoOp,
            final(self).resolved_action is NoOp,
    {
        self.clear_resolved();
        self.buffer.clear();
    }

    /// Takes a key event: a key release does nothing; a press joins the
    /// buffer (shift with a letter as the upper-case letter) and the buffer
    /// is processed; see [`VimInput::process_buffer`].
    pub fn handle_event(&mut self, key_event: &KeyEvent) -> (r: Action)
        ensures
            key_event.kind == KeyEventKind::Release ==> r is NoOp && *final(self) == *old(self),
            key_event.kind != KeyEventKind::Release ==> Self::step(
                old(self).mode,
                old(self).buffer.items@.push(normalize_shift(key_event.code, key_event.modifiers)),
                old(self).keymap,
                final(self).state(),
                r,
            ),
            final(self).keymap == old(self).keymap,
    {
        if key_event.kind == KeyEventKind::Release {
            return Action::NoOp;
        }
        let combo = KeyCombo::from_event(key_event);
        self.buffer.push(combo);
        self.process_buffer()
    }

    /// One step of the machine from mode `mode` and buffer `b`, leaving
    /// state `t` and returning `r`.
    pub open spec fn step(mode: Mode, b: Seq<KeyCombo>, km: Keymap, t: InputState, r: Action) -> bool {
        if b.len() == 0 {
            &&& r is NoOp
            &&& t.mode == mode
            &&& t.buffer == b
            &&& t.resolved_motion is NoOp
            &&& t.resolved_op is NoOp
            &&& t.resolved_action is NoOp
        } else if takes_text(mode) {
            insert_step(mode, b, km.insert_actions@, t, r)
        } else {
            normal_step(mode, b, km, t, r)
        }
    }

    /// Resolves the buffer against the keymap of the current mode; see
    /// [`VimInput::step`].
    pub fn process_buffer(&mut self) -> (r: Action)
        ensures
            Self::step(old(self).mode, old(self).buffer.items@, old(self).keymap, final(self).state(), r),
            final(self).keymap == old(self).keymap,
    {
        self.clear_resolved();
        if self.buffer.is_empty() {
            return Action::NoOp;
        }
        if self.mode == Mode::Insert || self.mode == Mode::Command {
            let ghost b = self.buffer.items@;
            let insert_action = resolve_action(&mut self.buffer, &self.keymap.insert_actions);
            proof {
                lemma_resolves_to_noop(b, self.keymap.insert_actions@, insert_action);
            }
            if !insert_action.is_noop() {
                if insert_action.is_clear() {
                    self.mode = Mode::Normal;
                }
                self.resolved_action = insert_action;
                self.buffer.clear();
                return self.resolved_action.clone();
            }
            let n = self.buffer.items.len();
            if n > 0 {
                let combo = self.buffer.items[n - 1];
                if combo.modifiers.is_empty() || combo.modifiers == KeyModifiers::shift() {
                    if let KeyCode::Char(c) = combo.code {
                        self.buffer.clear();
                        self.resolved_action = Action::InsertText(char_to_string(c));
                        return self.resolved_action.clone();
                    }
                }
            }
            return Action::NoOp;
        }
        if self.mode.is_visual() {
            let ghost b = self.buffer.items@;
            let visual_action = resolve_action(&mut self.buffer, &self.keymap.visual_actions);
            proof {
                lemma_resolves_to_noop(b, self.keymap.visual_actions@, visual_action);
            }
            if !visual_action.is_noop() {
                if visual_action.is_clear() {
                    self.mode = Mode::Normal;
                }
                self.resolved_action = visual_action;
                self.buffer.clear();
                return self.resolved_action.clone();
            }
        }
        self.command_step()
    }

    /// Normal and visual mode once the visual bindings have had their turn;
    /// see [`command_step`].
    fn command_step(&mut self) -> (r: Action)
        requires
            !takes_text(old(self).mode),
            old(self).resolved_motion is NoOp,
            old(self).resolved_op is NoOp,
            old(self).resolved_action is NoOp,
        ensures
            command_step(old(self).mode, old(self).buffer.items@, old(self).keymap, final(self).state(), r),
            final(self).keymap == old(self).keymap,
    {
        let visual = self.mode.is_visual();
        let ghost c = self.buffer.items@;
        let mut work_buf = self.buffer.clone();
        let mut motion_action = resolve_action(&mut work_buf, &self.keymap.motion_actions);
        let ghost m0 = motion_action;
        proof {
            lemma_resolves_to_noop(c, self.keymap.motion_actions@, motion_action);
        }
        if motion_action.is_noop() && visual {
            motion_action = Action::StandBy { count: 0, select: true };
        }
        if !motion_action.is_noop() {
            if visual {
                motion_action = motion_action.with_select(true);
            }
            self.resolved_motion = motion_action.clone();
            let ghost w = work_buf.items@;
            let op_action = resolve_action(&mut work_buf, &self.keymap.op_actions);
            proof {
                lemma_resolves_to_noop(w, self.keymap.op_actions@, op_action);
            }
            if !op_action.is_noop() {
                self.resolved_op = op_action.clone();
                self.resolved_action = resolve_op_motion_action(self.resolved_motion.clone(), self.resolved_op.clone());
            } else {
                self.resolved_action = motion_action;
            }
            self.buffer.clear();
            proof {
                assert(resolves_to(c, self.keymap.motion_actions@, m0));
            }
            return self.resolved_action.clone();
        }
        let mut work_buf_normal = self.buffer.clone();
        let normal_action = resolve_action(&mut work_buf_normal, &self.keymap.normal_actions);
        proof {
            lemma_resolves_to_noop(c, self.keymap.normal_actions@, normal_action);
        }
        if !normal_action.is_noop() {
            self.resolved_op = normal_action.clone();
            self.resolved_action = normal_action;
            self.buffer.clear();
            return self.resolved_action.clone();
        }
        let mut work_buf_mode = self.buffer.clone();
        let mode_action = resolve_action(&mut work_buf_mode, &self.keymap.mode_actions);
        proof {
            lemma_resolves_to_noop(c, self.keymap.mode_actions@, mode_action);
        }
        if !mode_action.is_noop() {
            match mode_action {
                Action::SetToInsert => self.mode = Mode::Insert,
                Action::SetToVisual => self.mode = Mode::Visual,
                Action::SetToCommand => self.mode = Mode::Command,
                _ => {},
            }
            self.resolved_action = mode_action;
            self.buffer.clear();
            return self.resolved_action.clone();
        }
        let mut peek_buf = self.buffer.clone();
        let _ = peek_buf.pop_trailing_digits();
        let op_action = peek_action(&peek_buf, &self.keymap.op_actions);
        proof {
            lemma_resolves_to_noop(peek_buf.items@, self.keymap.op_actions@, op_action);
        }
        if !op_action.is_noop() {
            self.resolved_op = op_action;
        }
        self.resolved_action.clone()
    }
}

/// One key event taken by the machine: a release leaves it as it was and
/// gives `NoOp`; a press is one [`VimInput::step`] with the key added.
pub open spec fn key_step(old: &VimInput, key_event: KeyEvent, t: InputState, r: Action) -> bool {
    if key_event.kind == KeyEventKind::Release {
        t == old.state() && r is NoOp
    } else {
        VimInput::step(
            old.mode,
            old.buffer.items@.push(normalize_shift(key_event.code, key_event.modifiers)),
            old.keymap,
            t,
            r,
        )
    }
}

/// Handles a key event for the editor: the action the keys resolved to,
/// if any (`Redo` among them), comes back to be applied, with a full
/// redraw; `Esc` that resolves to nothing resets the machine; pending keys
/// ask for a redraw to show them; anything else needs none.
pub fn handle_key_event(input: &mut VimInput, key_event: &KeyEvent) -> (r: (HandleEvent, Action))
    ensures
        final(input).keymap == old(input).keymap,
        !(r.1 is NoOp) ==> key_step(old(input), *key_event, final(input).state(), r.1) && r.0
            == HandleEvent::RedrawAndSync,
        r.1 is NoOp && key_event.code == KeyCode::Esc ==> {
            &&& r.0 == HandleEvent::Redraw
            &&& final(input).mode == old(input).mode
            &&& final(input).buffer.items@.len() == 0
            &&& final(input).resolved_motion is NoOp
            &&& final(input).resolved_op is NoOp
            &&& final(input).resolved_action is NoOp
        },
        r.1 is NoOp && key_event.code != KeyCode::Esc ==> {
            &&& key_step(old(input), *key_event, final(input).state(), r.1)
            &&& r.0 == (if final(input).buffer.items@.len() > 0 {
                HandleEvent::Redraw
            } else {
                HandleEvent::NoRedraw
            })
        },
{
    let action = input.handle_event(key_event);
    if !action.is_noop() {
        return (HandleEvent::RedrawAndSync, action);
    }
    if key_event.code == KeyCode::Esc {
        input.clear();
        return (HandleEvent::Redraw, action);
    }
    if !input.buffer.is_empty() {
        return (HandleEvent::Redraw, action);
    }
    (HandleEvent::NoRedraw, action)
}

} // verus!
