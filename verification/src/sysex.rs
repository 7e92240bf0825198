use crate::grid::{Cell, Grid, Led};
use vstd::arithmetic::div_mod::{lemma_mod_division_less_than_divisor, lemma_multiply_divide_lt};
use vstd::prelude::*;

verus! {

/// Device address of a cell: the device numbers its pads over rows of ten,
/// starting at eleven, so the address is `y * 10 + 11 + x`.
pub open spec fn led_index_spec(c: Cell) -> int {
    (c.y as int) * 10 + 11 + (c.x as int)
}

/// The bytes of one per-cell lighting record: a color type, the cell's device
/// address, then one zero byte for a dark LED or the three color components.
pub open spec fn lighting_record(c: Cell) -> Seq<u8> {
    match c.led {
        Led::Off => seq![0u8, led_index_spec(c) as u8, 0u8],
        Led::Rgb(r, g, b) => seq![3u8, led_index_spec(c) as u8, r, g, b],
    }
}

/// The fixed seven-byte command header: SysEx start, the vendor and device
/// identity, and the command byte.
pub open spec fn header_bytes(command: u8) -> Seq<u8> {
    seq![240u8, 0u8, 32u8, 41u8, 2u8, 12u8, command]
}

/// The full mode-switch command: `127` selects programmer mode, `0` restores
/// the standard mode.
pub open spec fn mode_bytes(is_programmer_mode: bool) -> Seq<u8> {
    header_bytes(0u8) + seq![if is_programmer_mode { 127u8 } else { 0u8 }, 247u8]
}

/// The lighting records for the first `n` cells, in linear order: one record
/// for every position where the active cell differs from the pending one, and
/// nothing for the rest.
pub open spec fn diff_records_upto(pending: Seq<Cell>, active: Seq<Cell>, n: int) -> Seq<u8>
    decreases n,
{
    if n <= 0 {
        Seq::empty()
    } else {
        diff_records_upto(pending, active, n - 1) + (if active[n - 1] == pending[n - 1] {
            Seq::<u8>::empty()
        } else {
            lighting_record(pending[n - 1])
        })
    }
}

/// All lighting records the diff emits for a pending/active pair.
pub open spec fn diff_records(pending: Seq<Cell>, active: Seq<Cell>) -> Seq<u8> {
    diff_records_upto(pending, active, pending.len() as int)
}

/// The full batch lighting command: header, the diff's records, trailer.
pub open spec fn batch_bytes(pending: Seq<Cell>, active: Seq<Cell>) -> Seq<u8> {
    header_bytes(3u8) + diff_records(pending, active) + seq![247u8]
}

/// A complete, ready-to-send SysEx command.
pub struct SysexMsg(pub Vec<u8>);

impl SysexMsg {
    /// The wire bytes the message carries.
    pub open spec fn bytes(&self) -> Seq<u8> {
        self.0@
    }

    /// Hands out the wire bytes of the message.
    pub fn to_bytes(self) -> (r: Vec<u8>)
        ensures
            r@ == self.bytes(),
    {
        self.0
    }
}

/// Builds the mode-switch command.
pub fn mode_sysex(is_programmer_mode: bool) -> (msg: SysexMsg)
    ensures
        msg.bytes() == mode_bytes(is_programmer_mode),
{
    let mut bytes: Vec<u8> = Vec::new();
    bytes.push(240);
    bytes.push(0);
    bytes.push(32);
    bytes.push(41);
    bytes.push(2);
    bytes.push(12);
    bytes.push(0);
    let code: u8 = if is_programmer_mode {
        127
    } else {
        0
    };
    bytes.push(code);
    bytes.push(247);
    proof {
        assert(bytes@ =~= mode_bytes(is_programmer_mode));
    }
    SysexMsg(bytes)
}

/// Device address of a cell, as the wire byte.
pub fn led_index(cell: &Cell) -> (r: u8)
    requires
        led_index_spec(*cell) <= 255,
    ensures
        r as int == led_index_spec(*cell),
{
    let idx = cell.y * 10 + 11 + cell.x;
    idx as u8
}

/// Appends the lighting record for `cell` to the message being built.
pub fn write_cell_lighting_msg(cell: &Cell, msg: &mut Vec<u8>)
    requires
        led_index_spec(*cell) <= 255,
    ensures
        final(msg)@ == old(msg)@ + lighting_record(*cell),
{
    let led_type: u8 = match cell.led {
        Led::Off => 0,
        Led::Rgb(_, _, _) => 3,
    };
    msg.push(led_type);
    msg.push(led_index(cell));
    match cell.led {
        Led::Off => msg.push(0),
        Led::Rgb(r, g, b) => {
            msg.push(r);
            msg.push(g);
            msg.push(b);
        },
    }
    proof {
        assert(msg@ =~= old(msg)@ + lighting_record(*cell));
    }
}

/// Every cell of a well-formed grid has a device address that fits in one
/// byte, provided the grid's far corner does.
pub proof fn lemma_led_index_in_range(g: Grid, i: int)
    requires
        g.wf(),
        0 <= i < g.values.len(),
        (g.height as int - 1) * 10 + 11 + (g.width as int - 1) <= 255,
    ensures
        0 <= led_index_spec(g.values[i]) <= 255,
{
    lemma_mod_division_less_than_divisor(i, g.width as int);
    lemma_multiply_divide_lt(i, g.width as int, g.height as int);
    assert(i < (g.width as int) * (g.height as int));
    assert(g.values[i].x < g.width);
    assert(g.values[i].y < g.height);
}

/// Runs the diff: emits the batch lighting command holding one record for
/// every cell where `active_cells` disagrees with `pending_cells`, in linear
/// order, and overwrites each such cell of `active_cells` with the pending
/// value, so that afterwards the active grid equals the pending one.
pub fn cells_to_sysex(pending_cells: &Grid, active_cells: &mut Grid) -> (msg: SysexMsg)
    requires
        pending_cells.wf(),
        old(active_cells).wf(),
        pending_cells.width == old(active_cells).width,
        pending_cells.height == old(active_cells).height,
        (old(active_cells).height as int - 1) * 10 + 11 + (old(active_cells).width as int - 1)
            <= 255,
    ensures
        final(active_cells).wf(),
        final(active_cells).width == old(active_cells).width,
        final(active_cells).height == old(active_cells).height,
        final(active_cells).values@ == pending_cells.values@,
        msg.bytes() == batch_bytes(pending_cells.values@, old(active_cells).values@),
{
    let ghost active0: Seq<Cell> = active_cells.values@;
    let mut bytes: Vec<u8> = Vec::new();
    bytes.push(240);
    bytes.push(0);
    bytes.push(32);
    bytes.push(41);
    bytes.push(2);
    bytes.push(12);
    bytes.push(3);
    proof {
        assert(bytes@ =~= header_bytes(3u8));
    }
    let n = active_cells.values.len();
    let mut i: usize = 0;
    while i < n
        invariant
            pending_cells.wf(),
            active_cells.wf(),
            i <= n,
            n == active_cells.values.len(),
            n == pending_cells.values.len(),
            active_cells.width == pending_cells.width,
            active_cells.height == pending_cells.height,
            (active_cells.height as int - 1) * 10 + 11 + (active_cells.width as int - 1) <= 255,
            forall|j: int| i <= j < n ==> #[trigger] active_cells.values[j] == active0[j],
            forall|j: int|
                0 <= j < i ==> #[trigger] active_cells.values[j] == pending_cells.values[j],
            bytes@ == header_bytes(3u8) + diff_records_upto(
                pending_cells.values@,
                active0,
                i as int,
            ),
        decreases n - i,
    {
        let cell = active_cells.values[i];
        let pending = pending_cells.values[i];
        if cell != pending {
            proof {
                lemma_led_index_in_range(*pending_cells, i as int);
            }
            write_cell_lighting_msg(&pending, &mut bytes);
            active_cells.values.set(i, pending);
        }
        proof {
            assert(bytes@ =~= header_bytes(3u8) + diff_records_upto(
                pending_cells.values@,
                active0,
                i + 1,
            ));
        }
        i = i + 1;
    }
    bytes.push(247);
    proof {
        assert(active_cells.values@ =~= pending_cells.values@);
        assert(bytes@ =~= batch_bytes(pending_cells.values@, active0));
    }
    SysexMsg(bytes)
}

/// Diff minimality, converged case: where every active cell already equals
/// its pending counterpart, the diff emits no lighting records at all, so a
/// flush with no queued change sends only the header and the trailer.
pub proof fn lemma_no_diff_no_records(pending: Seq<Cell>, active: Seq<Cell>)
    requires
        forall|j: int| 0 <= j < pending.len() ==> active[j] == pending[j],
    ensures
        diff_records(pending, active) == Seq::<u8>::empty(),
{
    lemma_no_diff_no_records_upto(pending, active, pending.len() as int);
}

/// Diff minimality, converse direction: records appear only for changed
/// cells, so a diff that emitted nothing found every cell unchanged.
pub proof fn lemma_no_records_no_diff(pending: Seq<Cell>, active: Seq<Cell>)
    requires
        diff_records(pending, active).len() == 0,
    ensures
        forall|j: int| 0 <= j < pending.len() ==> active[j] == pending[j],
{
    lemma_no_records_no_diff_upto(pending, active, pending.len() as int);
}

proof fn lemma_no_records_no_diff_upto(pending: Seq<Cell>, active: Seq<Cell>, n: int)
    requires
        diff_records_upto(pending, active, n).len() == 0,
    ensures
        forall|j: int| 0 <= j < n ==> active[j] == pending[j],
    decreases n,
{
    if n > 0 {
        if active[n - 1] != pending[n - 1] {
            let c = pending[n - 1];
            match c.led {
                Led::Off => {
                    assert(lighting_record(c).len() == 3);
                },
                Led::Rgb(r, g, b) => {
                    assert(lighting_record(c).len() == 5);
                },
            }
            assert(false);
        }
        lemma_no_records_no_diff_upto(pending, active, n - 1);
    }
}

/// A batch command built after convergence — the active cells already equal
/// the pending ones — is nothing but the header and the trailer: a second
/// consecutive flush puts no record on the wire.
pub proof fn lemma_converged_flush_is_bare(cells: Seq<Cell>)
    ensures
        batch_bytes(cells, cells) == header_bytes(3u8) + seq![247u8],
{
    lemma_no_diff_no_records(cells, cells);
    assert(batch_bytes(cells, cells) =~= header_bytes(3u8) + seq![247u8]);
}

proof fn lemma_no_diff_no_records_upto(pending: Seq<Cell>, active: Seq<Cell>, n: int)
    requires
        n <= pending.len(),
        forall|j: int| 0 <= j < pending.len() ==> active[j] == pending[j],
    ensures
        diff_records_upto(pending, active, n) == Seq::<u8>::empty(),
    decreases n,
{
    if n <= 0 {
    } else {
        lemma_no_diff_no_records_upto(pending, active, n - 1);
        assert(diff_records_upto(pending, active, n) =~= Seq::<u8>::empty());
    }
}

} // verus!
