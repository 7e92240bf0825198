use launchy::events::{map_event, PadEventType};
use launchy::grid::{Cell, Grid, Led};
use launchy::math::{index_1d_to_2d, index_2d_to_1d};
use launchy::pad::Pad;
use launchy::sysex::{cells_to_sysex, led_index, mode_sysex, write_cell_lighting_msg};

const HEADER_MODE: [u8; 7] = [240, 0, 32, 41, 2, 12, 0];
const HEADER_BATCH: [u8; 7] = [240, 0, 32, 41, 2, 12, 3];

#[test]
fn led_index_formula_exactness() {
    assert_eq!(led_index(&Cell { x: 0, y: 0, led: Led::Off }), 11);
    assert_eq!(led_index(&Cell { x: 3, y: 2, led: Led::Off }), 34);
    assert_eq!(led_index(&Cell { x: 8, y: 8, led: Led::Off }), 99);
}

#[test]
fn event_classification() {
    assert_eq!(map_event(11, 0, Some(5)).event, PadEventType::Released);
    assert_eq!(map_event(11, 80, None).event, PadEventType::Pressed { velocity: 80 });
    assert_eq!(map_event(11, 80, Some(80)).event, PadEventType::Held { velocity: 80 });
}

#[test]
fn event_coordinates_invert_the_address() {
    // A lighting index computed from (x, y) decodes back to (x, y).
    for x in 0..9usize {
        for y in 0..9usize {
            let note = led_index(&Cell { x, y, led: Led::Off });
            let ev = map_event(note, 1, None);
            assert_eq!((ev.x, ev.y), (x, y));
        }
    }
}

#[test]
fn coordinate_round_trip() {
    for x in 0..9usize {
        for y in 0..9usize {
            let idx = index_2d_to_1d(x, y, 9, 9);
            assert_eq!(index_1d_to_2d(idx, 9, 9), (x, y));
        }
    }
}

#[test]
fn coordinates_wrap_instead_of_failing() {
    assert_eq!(index_2d_to_1d(10, 0, 9, 9), 1);
    assert_eq!(index_2d_to_1d(0, 10, 9, 9), 9);
    assert_eq!(index_2d_to_1d(9, 9, 9, 9), 0);
    assert_eq!(index_1d_to_2d(80, 9, 9), (8, 8));
}

#[test]
fn grid_starts_dark_with_derived_coordinates() {
    let g = Grid::new(9, 9);
    assert_eq!(g.count(), 81);
    for (i, cell) in g.iter().iter().enumerate() {
        assert_eq!(cell.x, i % 9);
        assert_eq!(cell.y, i / 9);
        assert_eq!(cell.led, Led::Off);
    }
}

#[test]
fn grid_set_and_get_wrap() {
    let mut g = Grid::new(9, 9);
    g.set(1, 2, Led::Rgb(9, 8, 7));
    assert_eq!(g.get(1, 2).led, Led::Rgb(9, 8, 7));
    // (10, 11) wraps onto (1, 2); the stored coordinates stay put.
    let c = g.get(10, 11);
    assert_eq!(c.led, Led::Rgb(9, 8, 7));
    assert_eq!((c.x, c.y), (1, 2));
    g.set(10, 11, Led::Off);
    assert_eq!(g.get(1, 2).led, Led::Off);
}

#[test]
fn grid_iter_mut_updates_in_place() {
    let mut g = Grid::new(9, 9);
    for cell in g.iter_mut().iter_mut() {
        if cell.x == cell.y {
            cell.led = Led::Rgb(1, 1, 1);
        }
    }
    assert_eq!(g.get(4, 4).led, Led::Rgb(1, 1, 1));
    assert_eq!(g.get(4, 5).led, Led::Off);
}

#[test]
fn mode_commands_are_bit_exact() {
    let mut enable = HEADER_MODE.to_vec();
    enable.push(127);
    enable.push(247);
    assert_eq!(mode_sysex(true).to_bytes(), enable);

    let mut disable = HEADER_MODE.to_vec();
    disable.push(0);
    disable.push(247);
    assert_eq!(mode_sysex(false).to_bytes(), disable);
}

#[test]
fn lighting_records_are_bit_exact() {
    let mut msg: Vec<u8> = vec![1, 2];
    write_cell_lighting_msg(&Cell { x: 0, y: 0, led: Led::Off }, &mut msg);
    assert_eq!(msg, vec![1, 2, 0, 11, 0]);

    let mut rgb: Vec<u8> = Vec::new();
    write_cell_lighting_msg(&Cell { x: 3, y: 2, led: Led::Rgb(10, 20, 30) }, &mut rgb);
    assert_eq!(rgb, vec![3, 34, 10, 20, 30]);
}

#[test]
fn diff_emits_changed_cells_and_converges() {
    let pending_then = {
        let mut pending = Grid::new(9, 9);
        pending.set(1, 0, Led::Rgb(5, 6, 7));
        pending
    };
    let mut active = Grid::new(9, 9);

    let bytes = cells_to_sysex(&pending_then, &mut active).to_bytes();
    let mut expected = HEADER_BATCH.to_vec();
    expected.extend_from_slice(&[3, 12, 5, 6, 7]);
    expected.push(247);
    assert_eq!(bytes, expected);
    assert_eq!(active.get(1, 0).led, Led::Rgb(5, 6, 7));

    // Converged: the same pair diffs to an empty body.
    let again = cells_to_sysex(&pending_then, &mut active).to_bytes();
    let mut bare = HEADER_BATCH.to_vec();
    bare.push(247);
    assert_eq!(again, bare);
}

#[test]
fn session_scenario_two_records_then_none() {
    let mut pad = Pad::new();
    assert_eq!(pad.width(), 9);
    assert_eq!(pad.height(), 9);

    pad.queue_led(0, 0, Led::Rgb(255, 0, 0));
    pad.queue_led(8, 8, Led::Rgb(0, 255, 0));

    let bytes = pad.flush().to_bytes();
    let mut expected = HEADER_BATCH.to_vec();
    expected.extend_from_slice(&[3, 11, 255, 0, 0]);
    expected.extend_from_slice(&[3, 99, 0, 255, 0]);
    expected.push(247);
    assert_eq!(bytes, expected);

    // No intervening queue_led: the second flush carries zero records.
    let again = pad.flush().to_bytes();
    let mut bare = HEADER_BATCH.to_vec();
    bare.push(247);
    assert_eq!(again, bare);
}

#[test]
fn first_flush_of_a_fresh_session_is_bare() {
    // Both grids start all-off and equal, so nothing is retransmitted.
    let mut pad = Pad::new();
    let bytes = pad.flush().to_bytes();
    let mut bare = HEADER_BATCH.to_vec();
    bare.push(247);
    assert_eq!(bytes, bare);
}

#[test]
fn queueing_the_unchanged_value_emits_nothing() {
    let mut pad = Pad::new();
    pad.queue_led(4, 4, Led::Off);
    let bytes = pad.flush().to_bytes();
    let mut bare = HEADER_BATCH.to_vec();
    bare.push(247);
    assert_eq!(bytes, bare);
}

#[test]
fn polling_is_fifo_in_arrival_order() {
    let mut pad = Pad::new();
    assert_eq!(pad.poll(), None);

    pad.ingest(11, 10);
    pad.ingest(12, 20);
    pad.ingest(13, 0);

    let a = pad.poll().unwrap();
    assert_eq!((a.x, a.y, a.event), (0, 0, PadEventType::Pressed { velocity: 10 }));
    let b = pad.poll().unwrap();
    assert_eq!((b.x, b.y, b.event), (1, 0, PadEventType::Pressed { velocity: 20 }));
    let c = pad.poll().unwrap();
    assert_eq!((c.x, c.y, c.event), (2, 0, PadEventType::Released));
    assert_eq!(pad.poll(), None);
}

#[test]
fn repeated_note_is_held() {
    let mut pad = Pad::new();
    pad.ingest(34, 50);
    pad.ingest(34, 60);
    let first = pad.poll().unwrap();
    assert_eq!((first.x, first.y, first.event), (3, 2, PadEventType::Pressed { velocity: 50 }));
    let second = pad.poll().unwrap();
    assert_eq!(second.event, PadEventType::Held { velocity: 60 });

    // A release clears nothing from the table: the next touch is held.
    pad.ingest(34, 0);
    assert_eq!(pad.poll().unwrap().event, PadEventType::Released);
    pad.ingest(34, 70);
    assert_eq!(pad.poll().unwrap().event, PadEventType::Held { velocity: 70 });
}
