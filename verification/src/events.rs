use crate::grid::Cell;
use crate::sysex::led_index_spec;
use vstd::arithmetic::div_mod::{
    lemma_fundamental_div_mod_converse_div, lemma_fundamental_div_mod_converse_mod,
};
use vstd::prelude::*;

verus! {

/// The classified kind of a pad event.
#[derive(Debug, Clone, Copy, PartialEq, Eq, Structural)]
pub enum PadEventType {
    Pressed { velocity: u8 },
    Held { velocity: u8 },
    Released,
}

/// An input event: the grid coordinates of the pad and what happened on it.
#[derive(Debug, Clone, Copy, PartialEq, Eq, Structural)]
pub struct PadEvent {
    pub x: usize,
    pub y: usize,
    pub event: PadEventType,
}

/// Classification rule: a zero velocity is a release, whatever came before;
/// otherwise a note with a recorded earlier velocity is held, and one without
/// is freshly pressed.
pub open spec fn classify_spec(velocity: u8, prev_velocity: Option<u8>) -> PadEventType {
    if velocity == 0 {
        PadEventType::Released
    } else if prev_velocity is Some {
        PadEventType::Held { velocity }
    } else {
        PadEventType::Pressed { velocity }
    }
}

/// The grid column a raw note addresses: the device numbers its pads over
/// rows of ten starting at eleven, so the column is the last digit minus one.
pub open spec fn note_x(note: u8) -> int {
    (note as int) % 10 - 1
}

/// The grid row a raw note addresses.
pub open spec fn note_y(note: u8) -> int {
    (note as int) / 10 - 1
}

/// Whether a raw note addresses a pad at all. Notes whose last digit is zero
/// are the device's row markers, and notes below ten lie outside the pad
/// rows; both would decode to coordinates off the grid.
pub open spec fn valid_pad_note(note: u8) -> bool {
    note % 10 != 0 && note >= 10
}

/// The event a raw message turns into.
pub open spec fn map_event_spec(note: u8, velocity: u8, prev_velocity: Option<u8>) -> PadEvent {
    PadEvent {
        x: note_x(note) as usize,
        y: note_y(note) as usize,
        event: classify_spec(velocity, prev_velocity),
    }
}

/// Converts a raw note, its velocity, and the previously recorded velocity
/// for that note into a classified pad event with derived grid coordinates.
///
/// Callers feeding this from a device must keep invalid notes (the row
/// markers and anything below the first pad row) away from it; they carry no
/// coordinates.
pub fn map_event(note: u8, value: u8, prev_value: Option<u8>) -> (r: PadEvent)
    requires
        valid_pad_note(note),
    ensures
        r == map_event_spec(note, value, prev_value),
{
    let event = if value == 0 {
        PadEventType::Released
    } else {
        if prev_value.is_some() {
            PadEventType::Held { velocity: value }
        } else {
            PadEventType::Pressed { velocity: value }
        }
    };

    proof {
        assert((note as int) / 10 >= 1) by (nonlinear_arith)
            requires
                note as int >= 10,
        ;
    }
    let x = (note % 10) - 1;
    let y = (note / 10) - 1;

    PadEvent { x: x as usize, y: y as usize, event }
}

/// Note-to-coordinate inverse: the device address computed for a pad cell,
/// received back as a raw note, decodes to the very coordinates the address
/// was computed from. The last column that the addressing scheme can carry is
/// eight; a cell further right would collide with a row marker.
pub proof fn lemma_note_coordinate_inverse(c: Cell)
    requires
        c.x < 9,
        led_index_spec(c) <= 255,
    ensures
        valid_pad_note(led_index_spec(c) as u8),
        note_x(led_index_spec(c) as u8) == c.x,
        note_y(led_index_spec(c) as u8) == c.y,
{
    let note = led_index_spec(c);
    assert(note == (c.y as int + 1) * 10 + (c.x as int + 1));
    lemma_fundamental_div_mod_converse_mod(note, 10, c.y as int + 1, c.x as int + 1);
    lemma_fundamental_div_mod_converse_div(note, 10, c.y as int + 1, c.x as int + 1);
    assert(note as u8 == note);
}

} // verus!
