//! The per-connection state machine: what a connection handler does with
//! each opcode it reads, and when it ends the connection.
use vstd::prelude::*;
use crate::codec::{encode, Opcode};

verus! {

/// Spacing of the movement grid: coordinates and steps are multiples of it.
pub const GRID_STEP: i64 = 5;

/// What the read side of a connection reported.
pub enum Event {
    /// A whole frame arrived and decoded to this opcode.
    Received(Opcode),
    /// The read failed: the peer closed or reset the stream, or sent bytes
    /// that are not a frame.
    ReadFailed,
}

/// What the handler must do next.
pub enum Action {
    /// Submit these bytes to the hub and read on.
    Forward(Vec<u8>),
    /// Close the connection, both directions, sending nothing.
    Close,
    /// Submit these bytes to the hub, then close the connection.
    ForwardThenClose(Vec<u8>),
}

/// The state a handler keeps for its one connection.
pub struct Connection {
    /// The identity assigned at accept time.
    pub client_id: u32,
    /// Horizontal coordinate of the last accepted move.
    pub last_x: Option<i32>,
    /// Vertical coordinate of the last accepted move.
    pub last_y: Option<i32>,
    /// Whether the handler still serves the connection.
    pub open: bool,
}

/// `v` lies on the movement grid.
pub open spec fn on_grid(v: int) -> bool {
    v % (GRID_STEP as int) == 0
}

/// `|v|`.
pub open spec fn abs(v: int) -> int {
    if v < 0 {
        -v
    } else {
        v
    }
}

/// Going from `last` (if a move was accepted before) to `new` is a whole
/// number of grid steps.
pub open spec fn step_ok(last: Option<i32>, new: i32) -> bool {
    match last {
        None => true,
        Some(l) => abs(new - l) % (GRID_STEP as int) == 0,
    }
}

impl Connection {
    /// The state right after accept: no position yet.
    pub open spec fn fresh(client_id: u32) -> Connection {
        Connection { client_id, last_x: None, last_y: None, open: true }
    }

    /// Whether the connection may send `o`: it speaks for its own identity
    /// only, and a move stays on the grid and moves by whole grid steps.
    pub open spec fn accepts(self, o: Opcode) -> bool {
        match o {
            Opcode::Move { x, y, id } => {
                &&& id == self.client_id
                &&& on_grid(x as int)
                &&& on_grid(y as int)
                &&& step_ok(self.last_x, x)
                &&& step_ok(self.last_y, y)
            },
            Opcode::Welcome { id } => id == self.client_id,
            Opcode::Disconnect { id } => id == self.client_id,
        }
    }

    /// The state after an accepted `o`: a move becomes the last position.
    pub open spec fn after(self, o: Opcode) -> Connection {
        match o {
            Opcode::Move { x, y, .. } => Connection { last_x: Some(x), last_y: Some(y), ..self },
            _ => self,
        }
    }

    /// The state and action that `ev` leads to from this state, the action's
    /// bytes written as a sequence.
    pub open spec fn next(self, ev: Event) -> (Connection, Option<Seq<u8>>, bool) {
        if !self.open {
            (self, None, true)
        } else {
            match ev {
                Event::Received(o) => if self.accepts(o) {
                    (self.after(o), Some(encode(o)), false)
                } else {
                    (Connection { open: false, ..self }, None, true)
                },
                Event::ReadFailed => (
                    Connection { open: false, ..self },
                    Some(encode(Opcode::Disconnect { id: self.client_id })),
                    true,
                ),
            }
        }
    }

    /// A handler for a connection that was just given `client_id`.
    pub fn new(client_id: u32) -> (r: Connection)
        ensures
            r == Connection::fresh(client_id),
    {
        Connection { client_id, last_x: None, last_y: None, open: true }
    }

    /// Decides whether the connection may send `o` (see `accepts`).
    pub fn is_valid(&self, o: &Opcode) -> (r: bool)
        ensures
            r == self.accepts(*o),
    {
        match *o {
            Opcode::Move { x, y, id } => {
                id == self.client_id && is_on_grid(x) && is_on_grid(y) && is_step_valid(self.last_x, x)
                    && is_step_valid(self.last_y, y)
            },
            Opcode::Welcome { id } => id == self.client_id,
            Opcode::Disconnect { id } => id == self.client_id,
        }
    }

    /// Takes one event from the read side and says what to do. An accepted
    /// opcode is re-encoded for the hub; a rejected one ends the connection
    /// with nothing sent; a failed read ends it after a `Disconnect` for this
    /// connection's identity has been handed to the hub. Once closed, the
    /// handler does nothing more.
    pub fn step(&mut self, ev: Event) -> (r: Action)
        ensures
            ({
                let (s, out, closes) = old(self).next(ev);
                &&& *final(self) == s
                &&& match r {
                    Action::Forward(b) => out == Some(b@) && !closes,
                    Action::Close => out is None && closes,
                    Action::ForwardThenClose(b) => out == Some(b@) && closes,
                }
            }),
    {
        if !self.open {
            return Action::Close;
        }
        match ev {
            Event::Received(o) => {
                if self.is_valid(&o) {
                    if let Opcode::Move { x, y, .. } = o {
                        self.last_x = Some(x);
                        self.last_y = Some(y);
                    }
                    Action::Forward(o.asbytes())
                } else {
                    self.open = false;
                    Action::Close
                }
            },
            Event::ReadFailed => {
                self.open = false;
                let d = Opcode::Disconnect { id: self.client_id };
                Action::ForwardThenClose(d.asbytes())
            },
        }
    }
}

/// Whether `v` lies on the movement grid.
fn is_on_grid(v: i32) -> (r: bool)
    ensures
        r == on_grid(v as int),
{
    (v as i64).checked_rem_euclid(GRID_STEP) == Some(0i64)
}

/// Whether going from `last` to `new` is a whole number of grid steps.
fn is_step_valid(last: Option<i32>, new: i32) -> (r: bool)
    ensures
        r == step_ok(last, new),
{
    match last {
        None => true,
        Some(l) => {
            let d: i64 = new as i64 - l as i64;
            let m: i64 = if d < 0 {
                -d
            } else {
                d
            };
            m.checked_rem_euclid(GRID_STEP) == Some(0i64)
        },
    }
}

} // verus!
