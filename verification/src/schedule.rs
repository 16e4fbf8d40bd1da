use vstd::prelude::*;

verus! {

/// What one overwrite pass writes: a three-byte pattern repeated, or fresh
/// random bytes before every block.
#[derive(Clone, Copy, PartialEq, Eq, Structural, Debug)]
pub enum PassFill {
    Pattern(u8, u8, u8),
    Random,
}

/// The 27 special patterns of the secure mode, in the order they are written.
pub open spec fn write_modes() -> Seq<(u8, u8, u8)> {
    seq![
        (0x55u8, 0x55u8, 0x55u8), (0xAA, 0xAA, 0xAA), (0x92, 0x49, 0x24), (0x49, 0x24, 0x92),
        (0x24, 0x92, 0x49), (0x00, 0x00, 0x00), (0x11, 0x11, 0x11), (0x22, 0x22, 0x22),
        (0x33, 0x33, 0x33), (0x44, 0x44, 0x44), (0x55, 0x55, 0x55), (0x66, 0x66, 0x66),
        (0x77, 0x77, 0x77), (0x88, 0x88, 0x88), (0x99, 0x99, 0x99), (0xAA, 0xAA, 0xAA),
        (0xBB, 0xBB, 0xBB), (0xCC, 0xCC, 0xCC), (0xDD, 0xDD, 0xDD), (0xEE, 0xEE, 0xEE),
        (0xFF, 0xFF, 0xFF), (0x92, 0x49, 0x24), (0x49, 0x24, 0x92), (0x24, 0x92, 0x49),
        (0x6D, 0xB6, 0xDB), (0xB6, 0xDB, 0x6D), (0xDB, 0x6D, 0xB6)
    ]
}


/// The fill of the loop pass numbered `turn` (0 to 36): turns 5 to 31 write
/// the special patterns; the others write random data, except that with
/// `zero` the last loop pass (turn 0 below mode 2, turn 36 from mode 2 on)
/// writes zeros.
pub open spec fn turn_fill(mode: i32, zero: bool, turn: int) -> PassFill {
    if 5 <= turn <= 31 {
        let p = write_modes()[turn - 5];
        PassFill::Pattern(p.0, p.1, p.2)
    } else if zero && turn == turn_count(mode) - 1 {
        PassFill::Pattern(0, 0, 0)
    } else {
        PassFill::Random
    }
}

/// How many loop passes run: one below mode 2, all 37 turns from mode 2 on.
pub open spec fn turn_count(mode: i32) -> int {
    if mode < 2 {
        1
    } else {
        37
    }
}

/// Whether a pattern pass comes before the loop passes.
pub open spec fn has_first_pass(mode: i32, zero: bool) -> bool {
    mode != 0 || zero
}

/// The pattern of that first pass: zeros in mode 0, 0xFF bytes otherwise.
pub open spec fn first_fill(mode: i32) -> PassFill {
    if mode == 0 {
        PassFill::Pattern(0, 0, 0)
    } else {
        PassFill::Pattern(0xFF, 0xFF, 0xFF)
    }
}

/// Mode 0 with `zero` writes the single zero pass and nothing else.
pub open spec fn stops_after_first(mode: i32, zero: bool) -> bool {
    mode == 0 && zero
}

/// The fills of all passes of an overwrite, in order.
pub open spec fn pass_plan(mode: i32, zero: bool) -> Seq<PassFill> {
    let first = if has_first_pass(mode, zero) {
        seq![first_fill(mode)]
    } else {
        Seq::<PassFill>::empty()
    };
    if stops_after_first(mode, zero) {
        first
    } else {
        first + Seq::new(turn_count(mode) as nat, |t: int| turn_fill(mode, zero, t))
    }
}

/// The `index`-th special pattern.
pub fn write_mode(index: usize) -> (p: (u8, u8, u8))
    requires
        index < 27,
    ensures
        p == write_modes()[index as int],
{
    match index {
        0 => (0x55, 0x55, 0x55),
        1 => (0xAA, 0xAA, 0xAA),
        2 => (0x92, 0x49, 0x24),
        3 => (0x49, 0x24, 0x92),
        4 => (0x24, 0x92, 0x49),
        5 => (0x00, 0x00, 0x00),
        6 => (0x11, 0x11, 0x11),
        7 => (0x22, 0x22, 0x22),
        8 => (0x33, 0x33, 0x33),
        9 => (0x44, 0x44, 0x44),
        10 => (0x55, 0x55, 0x55),
        11 => (0x66, 0x66, 0x66),
        12 => (0x77, 0x77, 0x77),
        13 => (0x88, 0x88, 0x88),
        14 => (0x99, 0x99, 0x99),
        15 => (0xAA, 0xAA, 0xAA),
        16 => (0xBB, 0xBB, 0xBB),
        17 => (0xCC, 0xCC, 0xCC),
        18 => (0xDD, 0xDD, 0xDD),
        19 => (0xEE, 0xEE, 0xEE),
        20 => (0xFF, 0xFF, 0xFF),
        21 => (0x92, 0x49, 0x24),
        22 => (0x49, 0x24, 0x92),
        23 => (0x24, 0x92, 0x49),
        24 => (0x6D, 0xB6, 0xDB),
        25 => (0xB6, 0xDB, 0x6D),
        _ => (0xDB, 0x6D, 0xB6),
    }
}

/// The fill of loop pass `turn`.
pub fn turn_fill_of(mode: i32, zero: bool, turn: usize) -> (f: PassFill)
    requires
        turn <= 36,
    ensures
        f == turn_fill(mode, zero, turn as int),
{
    if 5 <= turn && turn <= 31 {
        let p = write_mode(turn - 5);
        PassFill::Pattern(p.0, p.1, p.2)
    } else if zero && turn == (if mode < 2 { 0 } else { 36 }) {
        PassFill::Pattern(0, 0, 0)
    } else {
        PassFill::Random
    }
}

/// The fills of the passes that an overwrite in `mode` makes, in order.
pub fn overwrite_passes(mode: i32, zero: bool) -> (plan: Vec<PassFill>)
    ensures
        plan@ == pass_plan(mode, zero),
{
    let mut plan: Vec<PassFill> = Vec::new();
    if mode != 0 || zero {
        if mode == 0 {
            plan.push(PassFill::Pattern(0, 0, 0));
        } else {
            plan.push(PassFill::Pattern(0xFF, 0xFF, 0xFF));
        }
        if mode == 0 {
            return plan;
        }
    }
    let ghost first = plan@;
    let turns: usize = if mode < 2 { 1 } else { 37 };
    let mut turn: usize = 0;
    while turn < turns
        invariant
            turns == turn_count(mode),
            turn <= turns,
            !stops_after_first(mode, zero),
            first == (if has_first_pass(mode, zero) { seq![first_fill(mode)] } else { Seq::<PassFill>::empty() }),
            plan@ == first + Seq::new(turn as nat, |t: int| turn_fill(mode, zero, t)),
        decreases turns - turn,
    {
        let f = turn_fill_of(mode, zero, turn);
        plan.push(f);
        turn = turn + 1;
        assert(plan@ =~= first + Seq::new(turn as nat, |t: int| turn_fill(mode, zero, t)));
    }
    plan
}

/// The secure mode (mode 2 and above) makes 38 passes, the two-pass mode
/// (mode 1, and any mode below 0) two, and mode 0 one.
pub proof fn lemma_pass_counts(mode: i32, zero: bool)
    ensures
        mode >= 2 ==> pass_plan(mode, zero).len() == 38,
        (mode == 1 || mode < 0) ==> pass_plan(mode, zero).len() == 2,
        mode == 0 ==> pass_plan(mode, zero).len() == 1,
{
}

/// Every mode except mode 0 begins with a pass of 0xFF bytes; mode 0 with
/// `zero` writes a single pass of zeros.
pub proof fn lemma_first_pass(mode: i32, zero: bool)
    ensures
        mode != 0 ==> pass_plan(mode, zero)[0] == PassFill::Pattern(0xFF, 0xFF, 0xFF),
        mode == 0 && zero ==> pass_plan(mode, zero) == seq![PassFill::Pattern(0, 0, 0)],
        mode == 0 && !zero ==> pass_plan(mode, zero) == seq![PassFill::Random],
{
    if mode == 0 && !zero {
        assert(pass_plan(mode, zero) =~= seq![PassFill::Random]);
    }
}

/// With `zero`, the last pass of every mode writes zeros; without it, the
/// last pass of every mode writes random data.
pub proof fn lemma_last_pass(mode: i32, zero: bool)
    ensures
        zero ==> pass_plan(mode, zero).last() == PassFill::Pattern(0, 0, 0),
        !zero ==> pass_plan(mode, zero).last() == PassFill::Random,
{
    lemma_pass_counts(mode, zero);
}

/// In the secure mode, passes 6 to 32 write the 27 special patterns in
/// order, and passes 1 to 5 and 33 to 36 write random data.
pub proof fn lemma_secure_patterns(mode: i32, zero: bool)
    requires
        mode >= 2,
    ensures
        forall|i: int|
            0 <= i < 27 ==> #[trigger] pass_plan(mode, zero)[i + 6] == PassFill::Pattern(
                write_modes()[i].0,
                write_modes()[i].1,
                write_modes()[i].2,
            ),
        forall|i: int|
            (1 <= i <= 5 || 33 <= i <= 36) ==> #[trigger] pass_plan(mode, zero)[i] == PassFill::Random,
{
    lemma_pass_counts(mode, zero);
    assert forall|i: int| 0 <= i < 27 implies #[trigger] pass_plan(mode, zero)[i + 6] == PassFill::Pattern(
        write_modes()[i].0,
        write_modes()[i].1,
        write_modes()[i].2,
    ) by {
        assert(pass_plan(mode, zero)[i + 6] == turn_fill(mode, zero, i + 5));
    }
    assert forall|i: int| (1 <= i <= 5 || 33 <= i <= 36) implies #[trigger] pass_plan(mode, zero)[i]
        == PassFill::Random by {
        assert(pass_plan(mode, zero)[i] == turn_fill(mode, zero, i - 1));
    }
}

/// The table of special patterns, entry by entry: first 0x55 bytes and
/// their complement 0xAA; then the three rotations of the bit pattern
/// 0x92 0x49 0x24; then the sixteen one-nibble patterns 0x00, 0x11, ...,
/// 0xFF, the byte repeated; then the three rotations again; and last the
/// bitwise complements of those three rotations.
pub proof fn lemma_write_modes_table()
    ensures
        write_modes().len() == 27,
        write_modes()[0] == (0x55u8, 0x55u8, 0x55u8),
        write_modes()[1].0 + write_modes()[0].0 == 0xFF,
        write_modes()[1].0 == write_modes()[1].1 && write_modes()[1].1 == write_modes()[1].2,
        write_modes()[2] == (0x92u8, 0x49u8, 0x24u8),
        forall|k: int|
            2 <= k < 4 ==> #[trigger] write_modes()[k + 1] == (
                write_modes()[k].1,
                write_modes()[k].2,
                write_modes()[k].0,
            ),
        forall|k: int|
            5 <= k <= 20 ==> #[trigger] write_modes()[k] == (
                (0x11 * (k - 5)) as u8,
                (0x11 * (k - 5)) as u8,
                (0x11 * (k - 5)) as u8,
            ),
        forall|k: int| 21 <= k < 24 ==> #[trigger] write_modes()[k] == write_modes()[k - 19],
        forall|k: int|
            24 <= k < 27 ==> {
                &&& #[trigger] write_modes()[k].0 + write_modes()[k - 22].0 == 0xFF
                &&& write_modes()[k].1 + write_modes()[k - 22].1 == 0xFF
                &&& write_modes()[k].2 + write_modes()[k - 22].2 == 0xFF
            },
{
    let t = write_modes();
    assert forall|k: int| 5 <= k <= 20 implies #[trigger] t[k] == (
        (0x11 * (k - 5)) as u8,
        (0x11 * (k - 5)) as u8,
        (0x11 * (k - 5)) as u8,
    ) by {
        if k == 5 {
        } else if k == 6 {
        } else if k == 7 {
        } else if k == 8 {
        } else if k == 9 {
        } else if k == 10 {
        } else if k == 11 {
        } else if k == 12 {
        } else if k == 13 {
        } else if k == 14 {
        } else if k == 15 {
        } else if k == 16 {
        } else if k == 17 {
        } else if k == 18 {
        } else if k == 19 {
        } else {
        }
    }
    assert forall|k: int| 2 <= k < 4 implies #[trigger] t[k + 1] == (t[k].1, t[k].2, t[k].0) by {
        if k == 2 {
        } else {
        }
    }
    assert forall|k: int| 21 <= k < 24 implies #[trigger] t[k] == t[k - 19] by {
        if k == 21 {
        } else if k == 22 {
        } else {
        }
    }
    assert forall|k: int| 24 <= k < 27 implies {
        &&& #[trigger] t[k].0 + t[k - 22].0 == 0xFF
        &&& t[k].1 + t[k - 22].1 == 0xFF
        &&& t[k].2 + t[k - 22].2 == 0xFF
    } by {
        if k == 24 {
        } else if k == 25 {
        } else {
        }
    }
}

/// In the secure mode, passes 11 to 26 (counting the first pass as pass 0)
/// write the bytes 0x00, 0x11, ..., 0xFF repeated, pass 11 + j writing
/// 0x11 * j.
pub proof fn lemma_secure_nibble_passes(mode: i32, zero: bool)
    requires
        mode >= 2,
    ensures
        forall|j: int|
            0 <= j <= 15 ==> #[trigger] pass_plan(mode, zero)[11 + j] == PassFill::Pattern(
                (0x11 * j) as u8,
                (0x11 * j) as u8,
                (0x11 * j) as u8,
            ),
{
    lemma_write_modes_table();
    lemma_secure_patterns(mode, zero);
    assert forall|j: int| 0 <= j <= 15 implies #[trigger] pass_plan(mode, zero)[11 + j] == PassFill::Pattern(
        (0x11 * j) as u8,
        (0x11 * j) as u8,
        (0x11 * j) as u8,
    ) by {
        assert(pass_plan(mode, zero)[(j + 5) + 6] == PassFill::Pattern(
            write_modes()[j + 5].0,
            write_modes()[j + 5].1,
            write_modes()[j + 5].2,
        ));
        assert(write_modes()[j + 5] == (
            (0x11 * ((j + 5) - 5)) as u8,
            (0x11 * ((j + 5) - 5)) as u8,
            (0x11 * ((j + 5) - 5)) as u8,
        ));
    }
}

} // verus!
