//! The binary wire protocol: every command of both directions, its fixed
//! encoding, and the decoding of client frames.
use vstd::prelude::*;
use crate::game::{Coord, Sign};
use crate::engine::SetupPlan;

verus! {

/// Every command that crosses the wire in either direction, plus `Leave`:
/// the decoding of anything malformed, and of a closed connection.
#[derive(Clone, Debug)]
pub enum Command {
    /// Client asks to enter matchmaking.
    Queue,
    /// Server announces the first-considered side's sign and the sign that
    /// opens play.
    Start(Sign, Sign),
    /// Client places at (outer, inner).
    Place(Coord, Coord),
    /// Server confirms a placement; play moves on.
    PlaceAndMove(Coord, Coord, Sign),
    /// Server confirms a placement that completed the listed winning cells.
    PlaceAndWin(Coord, Coord, Sign, Vec<Coord>),
    /// Server confirms a placement that filled the sub-grid with no win.
    PlaceAndTie(Coord, Coord, Sign),
    /// The peer left or its frame could not be understood.
    Leave,
    /// Server tells the surviving side that its opponent forfeited.
    WinByForfeit,
}

/// The wire byte of a sign.
pub open spec fn sign_byte(s: Sign) -> u8 {
    match s {
        Sign::Cross => 0u8,
        Sign::Circle => 1u8,
    }
}

/// What decoding a client frame yields: a lone zero opcode queues, a place
/// opcode with four on-grid components places, and everything else (wrong
/// length, out-of-range component, unknown opcode) reads as leaving.
pub open spec fn spec_decode(b: Seq<u8>) -> Command {
    if b.len() == 1 && b[0] == 0 {
        Command::Queue
    } else if b.len() == 5 && b[0] == 1 && b[1] < 3 && b[2] < 3 && b[3] < 3 && b[4] < 3 {
        Command::Place(
            Coord { x: b[1] as usize, y: b[2] as usize },
            Coord { x: b[3] as usize, y: b[4] as usize },
        )
    } else {
        Command::Leave
    }
}

/// Decodes one client frame.
pub fn decode_frame(data: &[u8]) -> (r: Command)
    ensures
        r == spec_decode(data@),
        r matches Command::Place(o, i) ==> o.valid() && i.valid(),
{
    if data.len() == 1 && data[0] == 0 {
        return Command::Queue;
    }
    if data.len() == 5 && data[0] == 1 {
        let x1 = data[1];
        let y1 = data[2];
        let x2 = data[3];
        let y2 = data[4];
        if x1 < 3 && y1 < 3 && x2 < 3 && y2 < 3 {
            return Command::Place(
                Coord::new(x1 as usize, y1 as usize),
                Coord::new(x2 as usize, y2 as usize),
            );
        }
    }
    Command::Leave
}

/// The byte pairs of a coordinate list, in order.
pub open spec fn spec_coords_bytes(cells: Seq<Coord>) -> Seq<u8>
    decreases cells.len(),
{
    if cells.len() == 0 {
        Seq::empty()
    } else {
        spec_coords_bytes(cells.drop_last()) + seq![
            cells.last().x as u8,
            cells.last().y as u8,
        ]
    }
}

/// The five leading bytes every placement broadcast shares: an opcode and
/// the two coordinates.
pub open spec fn spec_placement_bytes(op: u8, outer: Coord, inner: Coord) -> Seq<u8> {
    seq![op, outer.x as u8, outer.y as u8, inner.x as u8, inner.y as u8]
}

/// The frame of a client place command.
pub open spec fn spec_encode_place(outer: Coord, inner: Coord) -> Seq<u8> {
    spec_placement_bytes(1u8, outer, inner)
}

/// The wire frame of each command; `Leave` is no wire command and has none.
/// The protocol reserves no opcode for `WinByForfeit`: this implementation
/// sends it as the lone byte 4.
pub open spec fn spec_encode(cmd: Command) -> Option<Seq<u8>> {
    match cmd {
        Command::Queue => Some(seq![0u8]),
        Command::Start(reference, opening) => Some(
            seq![0u8, sign_byte(reference), sign_byte(opening)],
        ),
        Command::Place(outer, inner) => Some(spec_encode_place(outer, inner)),
        Command::PlaceAndMove(outer, inner, s) => Some(
            spec_placement_bytes(1u8, outer, inner) + seq![sign_byte(s)],
        ),
        Command::PlaceAndWin(outer, inner, s, cells) => Some(
            spec_placement_bytes(2u8, outer, inner) + seq![sign_byte(s)] + spec_coords_bytes(
                cells@,
            ),
        ),
        Command::PlaceAndTie(outer, inner, s) => Some(
            spec_placement_bytes(3u8, outer, inner) + seq![sign_byte(s)],
        ),
        Command::Leave => None,
        Command::WinByForfeit => Some(seq![4u8]),
    }
}

/// Every coordinate the command carries is on the 3x3 grids.
pub open spec fn cmd_coords_valid(cmd: Command) -> bool {
    match cmd {
        Command::Place(o, i) => o.valid() && i.valid(),
        Command::PlaceAndMove(o, i, _) => o.valid() && i.valid(),
        Command::PlaceAndWin(o, i, _, cells) => o.valid() && i.valid() && forall|k: int|
            0 <= k < cells@.len() ==> (#[trigger] cells@[k]).valid(),
        Command::PlaceAndTie(o, i, _) => o.valid() && i.valid(),
        _ => true,
    }
}

/// The wire byte of a sign.
pub fn sign_to_byte(s: Sign) -> (r: u8)
    ensures
        r == sign_byte(s),
{
    match s {
        Sign::Cross => 0u8,
        Sign::Circle => 1u8,
    }
}

/// Encodes one command into its wire frame; `Leave` has none.
pub fn encode_command(cmd: &Command) -> (r: Option<Vec<u8>>)
    requires
        cmd_coords_valid(*cmd),
    ensures
        r is Some <==> spec_encode(*cmd) is Some,
        r matches Some(v) ==> spec_encode(*cmd) == Some(v@),
{
    match cmd {
        Command::Queue => {
            let mut out: Vec<u8> = Vec::new();
            out.push(0u8);
            proof {
                assert(out@ =~= seq![0u8]);
            }
            Some(out)
        },
        Command::Start(reference, opening) => {
            let mut out: Vec<u8> = Vec::new();
            out.push(0u8);
            out.push(sign_to_byte(*reference));
            out.push(sign_to_byte(*opening));
            proof {
                assert(out@ =~= seq![0u8, sign_byte(*reference), sign_byte(*opening)]);
            }
            Some(out)
        },
        Command::Place(outer, inner) => {
            let out = placement_bytes(1u8, *outer, *inner);
            Some(out)
        },
        Command::PlaceAndMove(outer, inner, s) => {
            let mut out = placement_bytes(1u8, *outer, *inner);
            out.push(sign_to_byte(*s));
            proof {
                assert(out@ =~= spec_placement_bytes(1u8, *outer, *inner) + seq![sign_byte(*s)]);
            }
            Some(out)
        },
        Command::PlaceAndWin(outer, inner, s, cells) => {
            let mut out = placement_bytes(2u8, *outer, *inner);
            out.push(sign_to_byte(*s));
            proof {
                assert(out@ =~= spec_placement_bytes(2u8, *outer, *inner) + seq![sign_byte(*s)]);
                assert(cells@.take(0) =~= Seq::<Coord>::empty());
                assert(out@ + spec_coords_bytes(cells@.take(0)) =~= out@);
            }
            let ghost header = out@;
            let mut i: usize = 0;
            while i < cells.len()
                invariant
                    i <= cells@.len(),
                    forall|k: int| 0 <= k < cells@.len() ==> (#[trigger] cells@[k]).valid(),
                    out@ == header + spec_coords_bytes(cells@.take(i as int)),
                decreases cells@.len() - i,
            {
                let c = cells[i];
                out.push(c.x as u8);
                out.push(c.y as u8);
                proof {
                    let pre = cells@.take(i as int);
                    let cur = cells@.take(i as int + 1);
                    assert(cur.drop_last() =~= pre);
                    assert(cur.last() == cells@[i as int]);
                    assert(spec_coords_bytes(cur) == spec_coords_bytes(pre) + seq![
                        c.x as u8,
                        c.y as u8,
                    ]);
                    assert(out@ =~= header + spec_coords_bytes(cur));
                }
                i += 1;
            }
            proof {
                assert(cells@.take(cells@.len() as int) =~= cells@);
            }
            Some(out)
        },
        Command::PlaceAndTie(outer, inner, s) => {
            let mut out = placement_bytes(3u8, *outer, *inner);
            out.push(sign_to_byte(*s));
            proof {
                assert(out@ =~= spec_placement_bytes(3u8, *outer, *inner) + seq![sign_byte(*s)]);
            }
            Some(out)
        },
        Command::Leave => None,
        Command::WinByForfeit => {
            let mut out: Vec<u8> = Vec::new();
            out.push(4u8);
            proof {
                assert(out@ =~= seq![4u8]);
            }
            Some(out)
        },
    }
}

/// The five leading bytes of a placement broadcast.
fn placement_bytes(op: u8, outer: Coord, inner: Coord) -> (r: Vec<u8>)
    requires
        outer.valid(),
        inner.valid(),
    ensures
        r@ == spec_placement_bytes(op, outer, inner),
{
    let mut out: Vec<u8> = Vec::new();
    out.push(op);
    out.push(outer.x as u8);
    out.push(outer.y as u8);
    out.push(inner.x as u8);
    out.push(inner.y as u8);
    proof {
        assert(out@ =~= spec_placement_bytes(op, outer, inner));
    }
    out
}

/// The two start announcements of a negotiated setup: each side receives its
/// own sign first, then the sign that opens play.
pub fn start_commands(plan: &SetupPlan) -> (r: (Command, Command))
    ensures
        r.0 == Command::Start(plan.first_sign, plan.opening),
        r.1 == Command::Start(plan.first_sign.opponent(), plan.opening),
{
    (
        Command::Start(plan.first_sign, plan.opening),
        Command::Start(plan.first_sign.opponent(), plan.opening),
    )
}

/// Encoding a valid place command and decoding the frame recovers the very
/// coordinates that were encoded.
pub proof fn lemma_place_round_trip(outer: Coord, inner: Coord)
    requires
        outer.valid(),
        inner.valid(),
    ensures
        spec_decode(spec_encode_place(outer, inner)) == Command::Place(outer, inner),
{
    let b = spec_encode_place(outer, inner);
    assert(b.len() == 5);
    assert(b[0] == 1);
    assert(b[1] == outer.x as u8 && b[2] == outer.y as u8);
    assert(b[3] == inner.x as u8 && b[4] == inner.y as u8);
    assert(b[1] as usize == outer.x && b[2] as usize == outer.y);
    assert(b[3] as usize == inner.x && b[4] as usize == inner.y);
}

/// A place frame with any component off the grid decodes as a leave.
pub proof fn lemma_place_out_of_range(b: Seq<u8>)
    requires
        b.len() == 5,
        b[0] == 1,
        b[1] >= 3 || b[2] >= 3 || b[3] >= 3 || b[4] >= 3,
    ensures
        spec_decode(b) == Command::Leave,
{
}

} // verus!
