use vstd::prelude::*;
use crate::schedule::{
    PassFill, turn_fill, turn_count, has_first_pass, first_fill, stops_after_first, turn_fill_of, pass_plan,
};

verus! {

/// One step of an overwrite, for the caller that holds the file to perform.
#[derive(Clone, Copy, PartialEq, Eq, Structural, Debug)]
pub enum Op {
    /// Position the file at the start offset of the overwrite.
    Seek,
    /// Fill the buffer with the three-byte pattern.
    Fill(u8, u8, u8),
    /// Write the buffer `count` times; a `count` of 0 means: until a write
    /// fails. With `refill`, put fresh random bytes into the buffer before
    /// each write.
    Blocks { count: u64, refill: bool },
    /// Flush the file, then synchronize the file systems.
    FlushSync,
    /// Synchronize the file systems.
    Sync,
}

/// The steps of one pass with the given fill, each pass writing `writes`
/// blocks.
pub open spec fn pass_ops(fill: PassFill, writes: u64) -> Seq<Op> {
    match fill {
        PassFill::Pattern(a, b, c) => seq![
            Op::Fill(a, b, c),
            Op::Blocks { count: writes, refill: false },
            Op::FlushSync,
        ],
        PassFill::Random => seq![Op::Blocks { count: writes, refill: true }, Op::FlushSync],
    }
}

/// The steps of the first `n` loop turns: each repositions the file and
/// writes its pass.
pub open spec fn turn_ops(mode: i32, zero: bool, writes: u64, n: nat) -> Seq<Op>
    decreases n,
{
    if n == 0 {
        Seq::empty()
    } else {
        turn_ops(mode, zero, writes, (n - 1) as nat) + seq![Op::Seek] + pass_ops(
            turn_fill(mode, zero, n - 1),
            writes,
        )
    }
}

/// Every step of an overwrite in `mode`: a first seek, the first pattern pass
/// where there is one, then (unless mode 0 with `zero` stops there) the loop
/// turns, one more seek where the loop ends after its first turn, and a final
/// synchronization.
pub open spec fn overwrite_program(mode: i32, zero: bool, writes: u64) -> Seq<Op> {
    let head = seq![Op::Seek] + if has_first_pass(mode, zero) {
        pass_ops(first_fill(mode), writes)
    } else {
        Seq::<Op>::empty()
    };
    if stops_after_first(mode, zero) {
        head
    } else {
        head + turn_ops(mode, zero, writes, turn_count(mode) as nat) + (if mode < 2 {
            seq![Op::Seek]
        } else {
            Seq::<Op>::empty()
        }) + seq![Op::Sync]
    }
}

/// Appends the steps of one pass to `ops`.
fn push_pass_ops(ops: &mut Vec<Op>, fill: PassFill, writes: u64)
    ensures
        final(ops)@ == old(ops)@ + pass_ops(fill, writes),
{
    match fill {
        PassFill::Pattern(a, b, c) => {
            ops.push(Op::Fill(a, b, c));
            ops.push(Op::Blocks { count: writes, refill: false });
            ops.push(Op::FlushSync);
        },
        PassFill::Random => {
            ops.push(Op::Blocks { count: writes, refill: true });
            ops.push(Op::FlushSync);
        },
    }
    assert(ops@ =~= old(ops)@ + pass_ops(fill, writes));
}

/// The steps of an overwrite in `mode` (0: one random pass, 1: 0xFF then
/// random, 2 and above: the 38 passes of the secure mode), each pass writing
/// `writes` blocks; with `zero` the last pass writes zeros.
pub fn sdel_overwrite_program(mode: i32, zero: bool, writes: u64) -> (ops: Vec<Op>)
    ensures
        ops@ == overwrite_program(mode, zero, writes),
{
    let mut ops: Vec<Op> = Vec::new();
    ops.push(Op::Seek);
    if mode != 0 || zero {
        if mode == 0 {
            push_pass_ops(&mut ops, PassFill::Pattern(0, 0, 0), writes);
            assert(ops@ =~= overwrite_program(mode, zero, writes));
            return ops;
        } else {
            push_pass_ops(&mut ops, PassFill::Pattern(0xFF, 0xFF, 0xFF), writes);
        }
    }
    let ghost head = ops@;
    let turns: usize = if mode < 2 { 1 } else { 37 };
    let mut turn: usize = 0;
    assert(head + turn_ops(mode, zero, writes, 0) =~= head);
    while turn < turns
        invariant
            turns == turn_count(mode),
            turn <= turns,
            ops@ == head + turn_ops(mode, zero, writes, turn as nat),
        decreases turns - turn,
    {
        ops.push(Op::Seek);
        let fill = turn_fill_of(mode, zero, turn);
        push_pass_ops(&mut ops, fill, writes);
        turn = turn + 1;
        assert(ops@ =~= head + turn_ops(mode, zero, writes, turn as nat));
    }
    if mode < 2 {
        ops.push(Op::Seek);
    }
    ops.push(Op::Sync);
    assert(ops@ =~= overwrite_program(mode, zero, writes));
    ops
}

/// How many blocks of `bufsize` bytes each pass writes over a file of
/// `length` bytes: one more than the whole blocks in it, and 0 (write until
/// a write fails) for an empty length.
pub open spec fn blocks_for(length: u64, bufsize: usize) -> u64 {
    if length > 0 {
        (1 + length / (bufsize as u64)) as u64
    } else {
        0
    }
}

/// The number of blocks each pass writes.
pub fn write_count(length: u64, bufsize: usize) -> (writes: u64)
    requires
        bufsize > 0,
        length / (bufsize as u64) < u64::MAX,
    ensures
        writes == blocks_for(length, bufsize),
{
    if length > 0 {
        1 + length / (bufsize as u64)
    } else {
        0
    }
}

/// What follows a block write.
#[derive(Clone, Copy, PartialEq, Eq, Structural, Debug)]
pub enum BlockNext {
    /// Write the next block; `done` blocks are written so far.
    Continue { done: u64 },
    /// The pass has written all its blocks.
    PassDone,
    /// The write failed: the overwrite ends with its error.
    Abort,
}

/// Decides what follows a block write in a pass of `count` blocks (0: until
/// a write fails), `done` blocks having been written before it: a failed write
/// ends an unbounded pass and aborts a bounded one.
pub fn next_block(count: u64, done: u64, write_ok: bool) -> (next: BlockNext)
    requires
        count == 0 || done < count,
        count == 0 ==> done < u64::MAX,
    ensures
        count == 0 && write_ok ==> next == (BlockNext::Continue { done: (done + 1) as u64 }),
        count == 0 && !write_ok ==> next == BlockNext::PassDone,
        count > 0 && !write_ok ==> next == BlockNext::Abort,
        count > 0 && write_ok && done + 1 == count ==> next == BlockNext::PassDone,
        count > 0 && write_ok && done + 1 < count ==> next == (BlockNext::Continue { done: (done + 1) as u64 }),
{
    if count == 0 {
        if write_ok {
            BlockNext::Continue { done: done + 1 }
        } else {
            BlockNext::PassDone
        }
    } else if !write_ok {
        BlockNext::Abort
    } else if done + 1 == count {
        BlockNext::PassDone
    } else {
        BlockNext::Continue { done: done + 1 }
    }
}

/// The pattern the buffer holds after the steps `ops`: that of the last
/// `Fill` among them, or zeros, which a new buffer holds.
pub open spec fn buffer_pattern(ops: Seq<Op>) -> (u8, u8, u8)
    decreases ops.len(),
{
    if ops.len() == 0 {
        (0, 0, 0)
    } else {
        match ops.last() {
            Op::Fill(a, b, c) => (a, b, c),
            _ => buffer_pattern(ops.drop_last()),
        }
    }
}

/// What the block writes among the steps `ops` write, in order: random data
/// where they refill, else the pattern the buffer holds at that point.
pub open spec fn written_fills(ops: Seq<Op>) -> Seq<PassFill>
    decreases ops.len(),
{
    if ops.len() == 0 {
        Seq::empty()
    } else {
        let rest = written_fills(ops.drop_last());
        match ops.last() {
            Op::Blocks { count, refill } => if refill {
                rest.push(PassFill::Random)
            } else {
                let p = buffer_pattern(ops.drop_last());
                rest.push(PassFill::Pattern(p.0, p.1, p.2))
            },
            _ => rest,
        }
    }
}

proof fn lemma_append_other(ops: Seq<Op>, op: Op)
    requires
        !(op is Blocks),
        !(op is Fill),
    ensures
        written_fills(ops.push(op)) == written_fills(ops),
        buffer_pattern(ops.push(op)) == buffer_pattern(ops),
{
    assert(ops.push(op).drop_last() =~= ops);
}

proof fn lemma_append_pass(ops: Seq<Op>, fill: PassFill, writes: u64)
    ensures
        written_fills(ops + pass_ops(fill, writes)) == written_fills(ops).push(fill),
{
    if let PassFill::Pattern(a, b, c) = fill {
        let s1 = ops.push(Op::Fill(a, b, c));
        let s2 = s1.push(Op::Blocks { count: writes, refill: false });
        let s3 = s2.push(Op::FlushSync);
        assert(ops + pass_ops(fill, writes) =~= s3);
        assert(s1.drop_last() =~= ops);
        assert(s2.drop_last() =~= s1);
        assert(s3.drop_last() =~= s2);
        assert(buffer_pattern(s1) == (a, b, c));
        assert(s1.last() == Op::Fill(a, b, c));
        assert(written_fills(s1) == written_fills(ops));
        assert(s2.last() == (Op::Blocks { count: writes, refill: false }));
        assert(written_fills(s2) == written_fills(s1).push(PassFill::Pattern(a, b, c)));
        assert(s3.last() == Op::FlushSync);
        assert(written_fills(s3) == written_fills(s2));

    } else {
        let s1 = ops.push(Op::Blocks { count: writes, refill: true });
        let s2 = s1.push(Op::FlushSync);
        assert(ops + pass_ops(fill, writes) =~= s2);
        assert(s1.drop_last() =~= ops);
        assert(s2.drop_last() =~= s1);
        assert(s1.last() == (Op::Blocks { count: writes, refill: true }));
        assert(written_fills(s1) == written_fills(ops).push(PassFill::Random));
        assert(s2.last() == Op::FlushSync);
        assert(written_fills(s2) == written_fills(s1));
    }
}

proof fn lemma_turns_written(head: Seq<Op>, mode: i32, zero: bool, writes: u64, n: nat)
    ensures
        written_fills(head + turn_ops(mode, zero, writes, n)) == written_fills(head) + Seq::new(
            n,
            |t: int| turn_fill(mode, zero, t),
        ),
    decreases n,
{
    if n == 0 {
        assert(head + turn_ops(mode, zero, writes, n) =~= head);
        assert(written_fills(head) + Seq::new(n, |t: int| turn_fill(mode, zero, t)) =~= written_fills(head));
    } else {
        lemma_turns_written(head, mode, zero, writes, (n - 1) as nat);
        let before = head + turn_ops(mode, zero, writes, (n - 1) as nat);
        lemma_append_other(before, Op::Seek);
        lemma_append_pass(before.push(Op::Seek), turn_fill(mode, zero, n - 1), writes);
        assert(head + turn_ops(mode, zero, writes, n) =~= before.push(Op::Seek) + pass_ops(
            turn_fill(mode, zero, n - 1),
            writes,
        ));
        assert(written_fills(head) + Seq::new(n, |t: int| turn_fill(mode, zero, t)) =~= (
        written_fills(head) + Seq::new((n - 1) as nat, |t: int| turn_fill(mode, zero, t))).push(
            turn_fill(mode, zero, n - 1),
        ));
    }
}

/// The block writes of an overwrite's steps write exactly the passes of its
/// plan, in order.
pub proof fn lemma_program_writes_plan(mode: i32, zero: bool, writes: u64)
    ensures
        written_fills(overwrite_program(mode, zero, writes)) == pass_plan(mode, zero),
{
    let start = seq![Op::Seek];
    lemma_append_other(Seq::<Op>::empty(), Op::Seek);
    assert(Seq::<Op>::empty().push(Op::Seek) =~= start);
    assert(written_fills(Seq::<Op>::empty()) =~= Seq::<PassFill>::empty());
    let head = start + if has_first_pass(mode, zero) {
        pass_ops(first_fill(mode), writes)
    } else {
        Seq::<Op>::empty()
    };
    let first = if has_first_pass(mode, zero) {
        seq![first_fill(mode)]
    } else {
        Seq::<PassFill>::empty()
    };
    if has_first_pass(mode, zero) {
        lemma_append_pass(start, first_fill(mode), writes);
        assert(Seq::<PassFill>::empty().push(first_fill(mode)) =~= first);
    } else {
        assert(head =~= start);
    }
    assert(written_fills(head) == first);
    if !stops_after_first(mode, zero) {
        let n = turn_count(mode) as nat;
        lemma_turns_written(head, mode, zero, writes, n);
        let body = head + turn_ops(mode, zero, writes, n);
        let tail = if mode < 2 {
            body.push(Op::Seek)
        } else {
            body
        };
        if mode < 2 {
            lemma_append_other(body, Op::Seek);
            assert(body + seq![Op::Seek] =~= tail);
        } else {
            assert(body + Seq::<Op>::empty() =~= tail);
        }
        lemma_append_other(tail, Op::Sync);
        assert(overwrite_program(mode, zero, writes) =~= tail.push(Op::Sync));
    }
}

/// Each pass writes at least the file's length: `blocks_for` blocks of
/// `bufsize` bytes reach past the last byte of a non-empty file.
pub proof fn lemma_blocks_cover(length: u64, bufsize: usize)
    requires
        bufsize > 0,
        length > 0,
        length / (bufsize as u64) < u64::MAX,
    ensures
        blocks_for(length, bufsize) * bufsize > length,
{
    let b = bufsize as int;
    let l = length as int;
    vstd::arithmetic::div_mod::lemma_fundamental_div_mod(l, b);
    assert((1 + l / b) * b == b * (l / b) + b) by (nonlinear_arith);
    assert(l % b < b) by {
        vstd::arithmetic::div_mod::lemma_mod_bound(l, b);
    }
}

/// Every block-writing step among `ops` writes `writes` blocks.
pub open spec fn blocks_all_count(ops: Seq<Op>, writes: u64) -> bool {
    forall|i: int|
        0 <= i < ops.len() && #[trigger] ops[i] is Blocks ==> ops[i]->Blocks_count == writes
}

proof fn lemma_blocks_all_count_concat(a: Seq<Op>, b: Seq<Op>, writes: u64)
    requires
        blocks_all_count(a, writes),
        blocks_all_count(b, writes),
    ensures
        blocks_all_count(a + b, writes),
{
    assert forall|i: int| 0 <= i < (a + b).len() && #[trigger] (a + b)[i] is Blocks implies (a
        + b)[i]->Blocks_count == writes by {
        if i < a.len() {
            assert((a + b)[i] == a[i]);
        } else {
            assert((a + b)[i] == b[i - a.len()]);
        }
    }
}

proof fn lemma_pass_ops_count(fill: PassFill, writes: u64)
    ensures
        blocks_all_count(pass_ops(fill, writes), writes),
{
}

proof fn lemma_turn_ops_count(mode: i32, zero: bool, writes: u64, n: nat)
    ensures
        blocks_all_count(turn_ops(mode, zero, writes, n), writes),
    decreases n,
{
    if n > 0 {
        lemma_turn_ops_count(mode, zero, writes, (n - 1) as nat);
        lemma_blocks_all_count_concat(turn_ops(mode, zero, writes, (n - 1) as nat), seq![Op::Seek], writes);
        lemma_pass_ops_count(turn_fill(mode, zero, n - 1), writes);
        lemma_blocks_all_count_concat(
            turn_ops(mode, zero, writes, (n - 1) as nat) + seq![Op::Seek],
            pass_ops(turn_fill(mode, zero, n - 1), writes),
            writes,
        );
    }
}

/// Every block-writing step of an overwrite writes the number of blocks
/// asked for, `writes`, whichever pass it belongs to. The block-writing
/// steps are the passes of the plan (`lemma_program_writes_plan`), so with
/// `writes == blocks_for(length, bufsize)` every pass, the first as well as
/// the last, covers the whole file (`lemma_blocks_cover`).
pub proof fn lemma_every_pass_writes_all_blocks(mode: i32, zero: bool, writes: u64)
    ensures
        forall|i: int|
            0 <= i < overwrite_program(mode, zero, writes).len() && #[trigger] overwrite_program(
                mode,
                zero,
                writes,
            )[i] is Blocks ==> overwrite_program(mode, zero, writes)[i]->Blocks_count == writes,
{
    let start = seq![Op::Seek];
    let first = if has_first_pass(mode, zero) {
        pass_ops(first_fill(mode), writes)
    } else {
        Seq::<Op>::empty()
    };
    lemma_pass_ops_count(first_fill(mode), writes);
    lemma_blocks_all_count_concat(start, first, writes);
    let head = start + first;
    if !stops_after_first(mode, zero) {
        let n = turn_count(mode) as nat;
        lemma_turn_ops_count(mode, zero, writes, n);
        lemma_blocks_all_count_concat(head, turn_ops(mode, zero, writes, n), writes);
        let body = head + turn_ops(mode, zero, writes, n);
        let seek = if mode < 2 {
            seq![Op::Seek]
        } else {
            Seq::<Op>::empty()
        };
        lemma_blocks_all_count_concat(body, seek, writes);
        lemma_blocks_all_count_concat(body + seek, seq![Op::Sync], writes);
    }
    assert(blocks_all_count(overwrite_program(mode, zero, writes), writes));
}

/// The block write at `i` is directly followed by a flush and comes after
/// a seek to the start offset, with no other block write in between.
pub open spec fn block_write_framed(ops: Seq<Op>, i: int) -> bool {
    &&& i + 1 < ops.len()
    &&& ops[i + 1] == Op::FlushSync
    &&& exists|k: int|
        0 <= k < i && #[trigger] ops[k] == Op::Seek && forall|m: int|
            k < m < i ==> !(#[trigger] ops[m] is Blocks)
}

/// Every block write among `ops` is framed by a seek before it and a flush
/// after it.
pub open spec fn block_writes_framed(ops: Seq<Op>) -> bool {
    forall|i: int| 0 <= i < ops.len() && #[trigger] ops[i] is Blocks ==> block_write_framed(ops, i)
}

proof fn lemma_framed_concat(a: Seq<Op>, b: Seq<Op>)
    requires
        block_writes_framed(a),
        block_writes_framed(b),
    ensures
        block_writes_framed(a + b),
{
    let c = a + b;
    assert forall|i: int| 0 <= i < c.len() && #[trigger] c[i] is Blocks implies block_write_framed(c, i) by {
        if i < a.len() {
            assert(c[i] == a[i]);
            assert(block_write_framed(a, i));
            assert(c[i + 1] == a[i + 1]);
            let k = choose|k: int|
                0 <= k < i && #[trigger] a[k] == Op::Seek && forall|m: int|
                    k < m < i ==> !(#[trigger] a[m] is Blocks);
            assert(c[k] == a[k]);
            assert forall|m: int| k < m < i implies !(#[trigger] c[m] is Blocks) by {
                assert(c[m] == a[m]);
            }
        } else {
            let j = i - a.len();
            assert(c[i] == b[j]);
            assert(block_write_framed(b, j));
            assert(c[i + 1] == b[j + 1]);
            let k = choose|k: int|
                0 <= k < j && #[trigger] b[k] == Op::Seek && forall|m: int|
                    k < m < j ==> !(#[trigger] b[m] is Blocks);
            assert(c[a.len() + k] == b[k]);
            assert forall|m: int| a.len() + k < m < i implies !(#[trigger] c[m] is Blocks) by {
                assert(c[m] == b[m - a.len()]);
            }
        }
    }
}

proof fn lemma_seek_pass_framed(fill: PassFill, writes: u64)
    ensures
        block_writes_framed(seq![Op::Seek] + pass_ops(fill, writes)),
{
    let s = seq![Op::Seek] + pass_ops(fill, writes);
    assert(s[0] == Op::Seek);
    match fill {
        PassFill::Pattern(a, b, c) => {
            assert(s =~= seq![
                Op::Seek,
                Op::Fill(a, b, c),
                Op::Blocks { count: writes, refill: false },
                Op::FlushSync,
            ]);
            assert(block_write_framed(s, 2));
        },
        PassFill::Random => {
            assert(s =~= seq![Op::Seek, Op::Blocks { count: writes, refill: true }, Op::FlushSync]);
            assert(block_write_framed(s, 1));
        },
    }
}

proof fn lemma_turn_ops_framed(mode: i32, zero: bool, writes: u64, n: nat)
    ensures
        block_writes_framed(turn_ops(mode, zero, writes, n)),
    decreases n,
{
    if n > 0 {
        let prev = turn_ops(mode, zero, writes, (n - 1) as nat);
        let pass = pass_ops(turn_fill(mode, zero, n - 1), writes);
        lemma_turn_ops_framed(mode, zero, writes, (n - 1) as nat);
        lemma_seek_pass_framed(turn_fill(mode, zero, n - 1), writes);
        lemma_framed_concat(prev, seq![Op::Seek] + pass);
        assert(prev + seq![Op::Seek] + pass =~= prev + (seq![Op::Seek] + pass));
    }
}

/// Every pass of an overwrite starts over at the start offset and ends on
/// the disk: each block write of the program comes after a seek with no
/// other block write in between, and is directly followed by a flush and a
/// synchronization.
pub proof fn lemma_every_pass_starts_over(mode: i32, zero: bool, writes: u64)
    ensures
        block_writes_framed(overwrite_program(mode, zero, writes)),
{
    let start = seq![Op::Seek];
    let first = if has_first_pass(mode, zero) {
        pass_ops(first_fill(mode), writes)
    } else {
        Seq::<Op>::empty()
    };
    let head = start + first;
    if has_first_pass(mode, zero) {
        lemma_seek_pass_framed(first_fill(mode), writes);
    } else {
        assert(head =~= start);
    }
    if !stops_after_first(mode, zero) {
        let n = turn_count(mode) as nat;
        lemma_turn_ops_framed(mode, zero, writes, n);
        lemma_framed_concat(head, turn_ops(mode, zero, writes, n));
        let body = head + turn_ops(mode, zero, writes, n);
        let seek = if mode < 2 {
            seq![Op::Seek]
        } else {
            Seq::<Op>::empty()
        };
        lemma_framed_concat(body, seek);
        lemma_framed_concat(body + seek, seq![Op::Sync]);
    }
}

} // verus!
