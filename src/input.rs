//! Mouse events as the core sees them, and their subscribers.
use vstd::prelude::*;

verus! {

/// A mouse event: the pointer position, the buttons held and the modifier keys.
#[derive(Copy, Clone, Debug, PartialEq, Eq, Structural)]
pub struct MouseEvent {
    pub x: i32,
    pub y: i32,
    pub left_btn: bool,
    pub right_btn: bool,
    pub middle_btn: bool,
    pub aux_btn: bool,
    pub back_btn: bool,
    pub forward_btn: bool,
    pub ctrl: bool,
    pub shift: bool,
    pub alt: bool,
    pub meta: bool,
}

/// Bit `k` of a button mask is set.
pub open spec fn button(buttons: u16, k: u16) -> bool {
    buttons & (1u16 << k) != 0
}

impl Default for MouseEvent {
    fn default() -> (r: MouseEvent)
        ensures
            r == (MouseEvent {
                x: 0,
                y: 0,
                left_btn: false,
                right_btn: false,
                middle_btn: false,
                aux_btn: false,
                back_btn: false,
                forward_btn: false,
                ctrl: false,
                shift: false,
                alt: false,
                meta: false,
            }),
    {
        MouseEvent {
            x: 0,
            y: 0,
            left_btn: false,
            right_btn: false,
            middle_btn: false,
            aux_btn: false,
            back_btn: false,
            forward_btn: false,
            ctrl: false,
            shift: false,
            alt: false,
            meta: false,
        }
    }
}

impl MouseEvent {
    /// An event at `(x, y)` whose held buttons are the bits of `buttons`: left,
    /// right, middle, auxiliary, back and forward from bit 0 up.
    pub fn from_parts(
        x: i32,
        y: i32,
        buttons: u16,
        ctrl: bool,
        shift: bool,
        alt: bool,
        meta: bool,
    ) -> (r: MouseEvent)
        ensures
            r.x == x,
            r.y == y,
            r.left_btn == button(buttons, 0),
            r.right_btn == button(buttons, 1),
            r.middle_btn == button(buttons, 2),
            r.aux_btn == button(buttons, 3),
            r.back_btn == button(buttons, 4),
            r.forward_btn == button(buttons, 5),
            r.ctrl == ctrl,
            r.shift == shift,
            r.alt == alt,
            r.meta == meta,
    {
        MouseEvent {
            x,
            y,
            left_btn: buttons & (1u16 << 0u16) != 0,
            right_btn: buttons & (1u16 << 1u16) != 0,
            middle_btn: buttons & (1u16 << 2u16) != 0,
            aux_btn: buttons & (1u16 << 3u16) != 0,
            back_btn: buttons & (1u16 << 4u16) != 0,
            forward_btn: buttons & (1u16 << 5u16) != 0,
            ctrl,
            shift,
            alt,
            meta,
        }
    }
}

/// The kinds of mouse event that subscribers can follow.
#[derive(Copy, Clone, Debug, PartialEq, Eq, Structural)]
pub enum MouseEventKind {
    Down,
    Up,
    Move,
    Enter,
    Leave,
}

/// The mouse events received since the last flush: every press, release and
/// move in order, and the latest enter and leave.
#[derive(Clone, Debug)]
pub struct InputEvents {
    down: Vec<MouseEvent>,
    up: Vec<MouseEvent>,
    moves: Vec<MouseEvent>,
    enter: Option<MouseEvent>,
    leave: Option<MouseEvent>,
}

pub open spec fn opt_seq(o: Option<MouseEvent>) -> Seq<MouseEvent> {
    match o {
        Some(e) => seq![e],
        None => Seq::empty(),
    }
}

impl InputEvents {
    /// The events of `kind` waiting to be delivered, oldest first.
    pub closed spec fn pending_view(&self, kind: MouseEventKind) -> Seq<MouseEvent> {
        match kind {
            MouseEventKind::Down => self.down@,
            MouseEventKind::Up => self.up@,
            MouseEventKind::Move => self.moves@,
            MouseEventKind::Enter => opt_seq(self.enter),
            MouseEventKind::Leave => opt_seq(self.leave),
        }
    }

    /// No events.
    pub fn new() -> (r: InputEvents)
        ensures
            forall|k: MouseEventKind| #[trigger] r.pending_view(k) == Seq::<MouseEvent>::empty(),
    {
        let r = InputEvents {
            down: Vec::new(),
            up: Vec::new(),
            moves: Vec::new(),
            enter: None,
            leave: None,
        };
        assert forall|k: MouseEventKind| #[trigger] r.pending_view(k) == Seq::<MouseEvent>::empty() by {
            assert(opt_seq(None) =~= Seq::<MouseEvent>::empty());
        }
        r
    }

    /// Records an event: presses, releases and moves queue up; an enter or a
    /// leave replaces the previous one.
    pub fn record(&mut self, kind: MouseEventKind, event: MouseEvent)
        ensures
            forall|k: MouseEventKind|
                k != kind ==> #[trigger] final(self).pending_view(k) == old(self).pending_view(k),
            final(self).pending_view(kind) == match kind {
                MouseEventKind::Enter => seq![event],
                MouseEventKind::Leave => seq![event],
                _ => old(self).pending_view(kind).push(event),
            },
    {
        match kind {
            MouseEventKind::Down => self.down.push(event),
            MouseEventKind::Up => self.up.push(event),
            MouseEventKind::Move => self.moves.push(event),
            MouseEventKind::Enter => self.enter = Some(event),
            MouseEventKind::Leave => self.leave = Some(event),
        }
    }

    /// The events of `kind` waiting to be delivered, oldest first.
    pub fn pending(&self, kind: MouseEventKind) -> (r: Vec<MouseEvent>)
        ensures
            r@ == self.pending_view(kind),
    {
        match kind {
            MouseEventKind::Down => self.down.clone(),
            MouseEventKind::Up => self.up.clone(),
            MouseEventKind::Move => self.moves.clone(),
            MouseEventKind::Enter => match self.enter {
                Some(e) => vec![e],
                None => Vec::new(),
            },
            MouseEventKind::Leave => match self.leave {
                Some(e) => vec![e],
                None => Vec::new(),
            },
        }
    }

    /// Forgets every event.
    pub fn flush_events(&mut self)
        ensures
            forall|k: MouseEventKind|
                #[trigger] final(self).pending_view(k) == Seq::<MouseEvent>::empty(),
    {
        self.down.clear();
        self.up.clear();
        self.moves.clear();
        self.enter = None;
        self.leave = None;
        assert forall|k: MouseEventKind|
            #[trigger] self.pending_view(k) == Seq::<MouseEvent>::empty() by {
            assert(opt_seq(None) =~= Seq::<MouseEvent>::empty());
        }
    }
}

/// Receives mouse events; each notification does nothing unless overridden.
pub trait MouseEventSubscriber {
    fn notify_down(&mut self, event: &MouseEvent) {
    }

    fn notify_up(&mut self, event: &MouseEvent) {
    }

    fn notify_move(&mut self, event: &MouseEvent) {
    }

    fn notify_enter(&mut self, event: &MouseEvent) {
    }

    fn notify_leave(&mut self, event: &MouseEvent) {
    }
}

} // verus!
