use crate::events::{map_event, map_event_spec, valid_pad_note, PadEvent};
use crate::grid::{Cell, Grid, Led};
use crate::math::wrap_to_1d;
use crate::sysex::{batch_bytes, cells_to_sysex, SysexMsg};
use vstd::prelude::*;

verus! {

/// Head of the event queue: what the next poll returns.
pub open spec fn front_event(q: Seq<PadEvent>) -> Option<PadEvent> {
    if q.len() == 0 {
        None
    } else {
        Some(q[0])
    }
}

/// The event queue after one poll: the head is gone, the rest keep their
/// order.
pub open spec fn rest_events(q: Seq<PadEvent>) -> Seq<PadEvent> {
    if q.len() == 0 {
        q
    } else {
        q.subrange(1, q.len() as int)
    }
}

/// The protocol engine of one device session: the LED state the caller wants
/// (`pending_cells`), the LED state last transmitted (`active_cells`), the
/// queue of decoded input events, and the velocity last seen for each note.
///
/// The engine computes every wire message and decodes every raw message; the
/// transport that carries the bytes lives outside it.
pub struct Pad {
    pub pending_cells: Grid,
    pub active_cells: Grid,
    pub msg_outbox: Vec<PadEvent>,
    pub msg_state: Vec<Option<u8>>,
}

impl Pad {
    /// Well-formedness: both grids are the device's nine-by-nine pad field,
    /// and the velocity table has one slot per possible note.
    pub open spec fn wf(&self) -> bool {
        &&& self.pending_cells.wf()
        &&& self.active_cells.wf()
        &&& self.pending_cells.width == 9
        &&& self.pending_cells.height == 9
        &&& self.active_cells.width == 9
        &&& self.active_cells.height == 9
        &&& self.msg_state.len() == 256
    }

    /// The velocity last recorded for a note, if any was.
    pub open spec fn last_velocity(&self, note: u8) -> Option<u8> {
        self.msg_state[note as int]
    }

    /// Creates the engine for a fresh session: both grids fully dark, no
    /// queued events, no note seen yet.
    pub fn new() -> (p: Pad)
        ensures
            p.wf(),
            forall|i: int|
                0 <= i < p.pending_cells.values.len() ==> (#[trigger] p.pending_cells.values[i]).led
                    == Led::Off,
            forall|i: int|
                0 <= i < p.active_cells.values.len() ==> (#[trigger] p.active_cells.values[i]).led
                    == Led::Off,
            p.pending_cells.values@ == p.active_cells.values@,
            p.msg_outbox@ == Seq::<PadEvent>::empty(),
            forall|n: u8| #[trigger] p.last_velocity(n) is None,
    {
        let pending_cells = Grid::new(9, 9);
        let active_cells = Grid::new(9, 9);
        let mut msg_state: Vec<Option<u8>> = Vec::new();
        let mut i: usize = 0;
        while i < 256
            invariant
                i <= 256,
                msg_state.len() == i,
                forall|j: int| 0 <= j < i ==> (#[trigger] msg_state[j]) is None,
            decreases 256 - i,
        {
            msg_state.push(None);
            i = i + 1;
        }
        let p = Pad { pending_cells, active_cells, msg_outbox: Vec::new(), msg_state };
        proof {
            assert(p.pending_cells.values@ =~= p.active_cells.values@);
        }
        p
    }

    /// The width of the pad field.
    pub fn width(&self) -> (w: usize)
        requires
            self.wf(),
        ensures
            w == 9,
            w == self.pending_cells.width,
    {
        9
    }

    /// The height of the pad field.
    pub fn height(&self) -> (h: usize)
        requires
            self.wf(),
        ensures
            h == 9,
            h == self.pending_cells.height,
    {
        9
    }

    /// Queues the new state for the LED at the wrapped position `(x, y)`.
    /// Only the pending grid changes; nothing is transmitted until a flush.
    pub fn queue_led(&mut self, x: usize, y: usize, led: Led)
        requires
            old(self).wf(),
        ensures
            final(self).wf(),
            final(self).pending_cells.led_at(x as int, y as int) == led,
            final(self).pending_cells.values@ == old(self).pending_cells.values@.update(
                wrap_to_1d(x as int, y as int, 9, 9),
                (Cell { led, ..old(self).pending_cells.values@[wrap_to_1d(x as int, y as int, 9, 9)] }),
            ),
            final(self).active_cells == old(self).active_cells,
            final(self).msg_outbox == old(self).msg_outbox,
            final(self).msg_state == old(self).msg_state,
    {
        self.pending_cells.set(x, y, led);
    }

    /// Runs the diff against the last transmitted state and returns the batch
    /// lighting command to send: one record per changed cell, in the grid's
    /// linear order, and nothing for unchanged cells. Afterwards the active
    /// grid equals the pending grid cell for cell (convergence), so a second
    /// flush with no queued change emits a command with no records.
    pub fn flush(&mut self) -> (msg: SysexMsg)
        requires
            old(self).wf(),
        ensures
            final(self).wf(),
            msg.bytes() == batch_bytes(
                old(self).pending_cells.values@,
                old(self).active_cells.values@,
            ),
            final(self).pending_cells == old(self).pending_cells,
            final(self).active_cells.values@ == old(self).pending_cells.values@,
            forall|x: int, y: int|
                #![trigger final(self).active_cells.led_at(x, y)]
                final(self).active_cells.led_at(x, y) == final(self).pending_cells.led_at(x, y),
            final(self).msg_outbox == old(self).msg_outbox,
            final(self).msg_state == old(self).msg_state,
    {
        cells_to_sysex(&self.pending_cells, &mut self.active_cells)
    }

    /// Records one raw input message: remembers the note's velocity, and
    /// appends the classified event — judged against the velocity previously
    /// on record — to the back of the event queue.
    pub fn ingest(&mut self, note: u8, velocity: u8)
        requires
            old(self).wf(),
            valid_pad_note(note),
        ensures
            final(self).wf(),
            final(self).msg_outbox@ == old(self).msg_outbox@.push(
                map_event_spec(note, velocity, old(self).last_velocity(note)),
            ),
            final(self).last_velocity(note) == Some(velocity),
            forall|n: u8|
                n != note ==> #[trigger] final(self).last_velocity(n) == old(self).last_velocity(n),
            final(self).pending_cells == old(self).pending_cells,
            final(self).active_cells == old(self).active_cells,
    {
        let prev = self.msg_state[note as usize];
        self.msg_state.set(note as usize, Some(velocity));
        let ev = map_event(note, velocity, prev);
        self.msg_outbox.push(ev);
    }

    /// Returns the oldest queued event and removes it, or nothing if the
    /// queue is empty; the remaining events keep their order.
    pub fn poll(&mut self) -> (r: Option<PadEvent>)
        requires
            old(self).wf(),
        ensures
            final(self).wf(),
            r == front_event(old(self).msg_outbox@),
            final(self).msg_outbox@ == rest_events(old(self).msg_outbox@),
            final(self).pending_cells == old(self).pending_cells,
            final(self).active_cells == old(self).active_cells,
            final(self).msg_state == old(self).msg_state,
    {
        if self.msg_outbox.is_empty() {
            None
        } else {
            let ev = self.msg_outbox.remove(0);
            proof {
                assert(self.msg_outbox@ =~= rest_events(old(self).msg_outbox@));
            }
            Some(ev)
        }
    }
}

/// FIFO polling: three events pushed onto an empty queue come back out in the
/// order they were pushed, and a fourth poll finds the queue empty.
pub proof fn lemma_poll_fifo(q: Seq<PadEvent>, e1: PadEvent, e2: PadEvent, e3: PadEvent)
    requires
        q.len() == 0,
    ensures
        ({
            let q3 = q.push(e1).push(e2).push(e3);
            &&& front_event(q3) == Some(e1)
            &&& front_event(rest_events(q3)) == Some(e2)
            &&& front_event(rest_events(rest_events(q3))) == Some(e3)
            &&& front_event(rest_events(rest_events(rest_events(q3)))) == None::<PadEvent>
        }),
{
    let q3 = q.push(e1).push(e2).push(e3);
    assert(q3.len() == 3);
    assert(q3[0] == e1);
    assert(q3[1] == e2);
    assert(q3[2] == e3);
    let r1 = rest_events(q3);
    assert(r1.len() == 2 && r1[0] == e2 && r1[1] == e3);
    let r2 = rest_events(r1);
    assert(r2.len() == 1 && r2[0] == e3);
    let r3 = rest_events(r2);
    assert(r3.len() == 0);
}

} // verus!
