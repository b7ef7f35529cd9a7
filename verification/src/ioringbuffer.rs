//! A fixed-size circular byte buffer that sits between a reading and a
//! writing stream. `writei` is where the next incoming byte is stored and
//! `readi` is where the next outgoing byte is taken from; the bytes held are
//! those from `readi` up to (not including) `writei`, going round the end,
//! so the number held is `writei - readi` taken round the end. A fill never
//! reaches `readi`: at most `SIZE - 1` bytes are held, and every byte
//! stored stays held until it is drained.
use vstd::prelude::*;
use crate::modular::lemma_mod_once;

verus! {

/// What a ring buffer holds, as mathematical values.
pub struct RingState {
    /// Number of cells (the buffer's `SIZE`).
    pub size: nat,
    /// Index of the cell the next incoming byte goes to.
    pub write_pos: nat,
    /// Index of the cell the next outgoing byte comes from.
    pub read_pos: nat,
    /// Every cell of the buffer, whether it holds live data or not.
    pub cells: Seq<u8>,
}

impl RingState {
    pub open spec fn wf(self) -> bool {
        &&& self.size > 0
        &&& self.write_pos < self.size
        &&& self.read_pos < self.size
        &&& self.cells.len() == self.size
    }

    /// Number of bytes held.
    pub open spec fn filled(self) -> nat {
        if self.write_pos >= self.read_pos {
            (self.write_pos - self.read_pos) as nat
        } else {
            (self.size - self.read_pos + self.write_pos) as nat
        }
    }

    /// The cell that holds the `i`-th byte counted from `read_pos`.
    pub open spec fn cell_index(self, i: int) -> int {
        if self.read_pos + i < self.size {
            self.read_pos + i
        } else {
            self.read_pos + i - self.size
        }
    }

    /// The bytes held, oldest first.
    pub open spec fn contents(self) -> Seq<u8> {
        Seq::new(self.filled(), |i: int| self.cells[self.cell_index(i)])
    }

    /// End (exclusive) of the contiguous region that incoming bytes fill.
    /// The region always stops one cell short of `read_pos` (counting round
    /// the end), so that `write_pos` never catches up with `read_pos` and a
    /// full buffer is never mistaken for an empty one.
    pub open spec fn write_end(self) -> nat {
        if self.write_pos >= self.read_pos {
            if self.read_pos == 0 {
                (self.size - 1) as nat
            } else {
                self.size
            }
        } else {
            (self.read_pos - 1) as nat
        }
    }

    /// How many bytes one fill can take.
    pub open spec fn write_room(self) -> nat {
        (self.write_end() - self.write_pos) as nat
    }

    /// End (exclusive) of the contiguous region that outgoing bytes come from.
    pub open spec fn read_end(self) -> nat {
        if self.read_pos > self.write_pos {
            self.size
        } else {
            self.write_pos
        }
    }

    /// How many bytes one drain can hand out.
    pub open spec fn read_room(self) -> nat {
        (self.read_end() - self.read_pos) as nat
    }

    /// The bytes one drain hands out.
    pub open spec fn read_window(self) -> Seq<u8> {
        self.cells.subrange(self.read_pos as int, self.read_end() as int)
    }

    /// The state after `data` has been stored at `write_pos`.
    pub open spec fn wrote(self, data: Seq<u8>) -> RingState {
        RingState {
            size: self.size,
            write_pos: ((self.write_pos + data.len()) as int % (self.size as int)) as nat,
            read_pos: self.read_pos,
            cells: self.cells.take(self.write_pos as int) + data + self.cells.skip(
                (self.write_pos + data.len()) as int,
            ),
        }
    }

    /// The state after `n` bytes have been handed out from `read_pos`.
    pub open spec fn consumed(self, n: nat) -> RingState {
        RingState {
            size: self.size,
            write_pos: self.write_pos,
            read_pos: ((self.read_pos + n) as int % (self.size as int)) as nat,
            cells: self.cells,
        }
    }
}

/// Storing a fill appends its bytes after those already held; the buffer
/// then still holds fewer than `size` bytes.
pub proof fn lemma_write_appends(s: RingState, data: Seq<u8>)
    requires
        s.wf(),
        data.len() <= s.write_room(),
    ensures
        s.wrote(data).wf(),
        s.wrote(data).read_pos == s.read_pos,
        s.filled() + data.len() < s.size,
        s.wrote(data).filled() == s.filled() + data.len(),
        s.wrote(data).contents() == s.contents() + data,
{
    let t = s.wrote(data);
    let k = data.len();
    lemma_mod_once((s.write_pos + k) as int, s.size as int);
    let f = s.filled();
    assert(t.filled() == f + k);
    assert forall|i: int| 0 <= i < f + k implies #[trigger] t.contents()[i] == (s.contents()
        + data)[i] by {
        if i < f {
            assert(t.cell_index(i) == s.cell_index(i));
        } else {
            assert(t.cell_index(i) == s.write_pos + (i - f));
        }
    }
    assert(t.contents() =~= s.contents() + data);
}

/// Handing out `n` bytes of the drain region drops exactly the `n` oldest
/// bytes held.
pub proof fn lemma_consume_drops_oldest(s: RingState, n: nat)
    requires
        s.wf(),
        n <= s.read_room(),
    ensures
        s.consumed(n).wf(),
        s.consumed(n).write_pos == s.write_pos,
        s.consumed(n).contents() == s.contents().skip(n as int),
{
    let t = s.consumed(n);
    lemma_mod_once((s.read_pos + n) as int, s.size as int);
    assert(t.filled() == s.filled() - n);
    assert forall|i: int| 0 <= i < t.filled() implies #[trigger] t.contents()[i] == s.contents().skip(
        n as int,
    )[i] by {
        assert(t.cell_index(i) == s.cell_index(i + n));
    }
    assert(t.contents() =~= s.contents().skip(n as int));
}

/// The drain region holds the oldest bytes, and it is empty only when the
/// buffer is; the fill region never exceeds the free cells less one, and it
/// is empty only when the buffer holds `size - 1` bytes.
pub proof fn lemma_windows(s: RingState)
    requires
        s.wf(),
    ensures
        s.filled() < s.size,
        s.contents().len() == s.filled(),
        s.filled() + s.write_room() < s.size,
        s.write_room() == 0 <==> s.filled() + 1 == s.size,
        s.read_room() <= s.filled(),
        s.read_room() == 0 <==> s.filled() == 0,
        s.read_window() == s.contents().take(s.read_room() as int),
{
    assert(s.read_window() =~= s.contents().take(s.read_room() as int));
}

/// Each region is as large as it can be. A fill takes every free cell but
/// one, or, where that would run past the end of the array, every cell up
/// to the end. A drain offers every byte held, or, where the bytes held run
/// round the end, every one up to the end of the array.
pub proof fn lemma_regions_are_maximal(s: RingState)
    requires
        s.wf(),
    ensures
        s.filled() + s.write_room() + 1 <= s.size,
        s.write_pos + s.write_room() <= s.size,
        s.filled() + s.write_room() + 1 == s.size || s.write_pos + s.write_room() == s.size,
        s.read_room() <= s.filled(),
        s.read_pos + s.read_room() <= s.size,
        s.read_room() == s.filled() || s.read_pos + s.read_room() == s.size,
{
}

/// One operation on a ring buffer: a fill that stores the given bytes, or a
/// drain whose stream took the given number of bytes.
pub enum RingOp {
    Fill(Seq<u8>),
    Drain(nat),
}

/// The operation fits the buffer: the bytes fit the fill region, or the
/// count fits the drain region.
pub open spec fn op_fits(s: RingState, op: RingOp) -> bool {
    match op {
        RingOp::Fill(data) => data.len() <= s.write_room(),
        RingOp::Drain(n) => n <= s.read_room(),
    }
}

/// The state after one operation.
pub open spec fn apply_op(s: RingState, op: RingOp) -> RingState {
    match op {
        RingOp::Fill(data) => s.wrote(data),
        RingOp::Drain(n) => s.consumed(n),
    }
}

/// The bytes a stream took in one operation (none for a fill).
pub open spec fn op_output(s: RingState, op: RingOp) -> Seq<u8> {
    match op {
        RingOp::Fill(_) => Seq::empty(),
        RingOp::Drain(n) => s.read_window().take(n as int),
    }
}

/// The bytes a stream supplied in one operation (none for a drain).
pub open spec fn op_input(op: RingOp) -> Seq<u8> {
    match op {
        RingOp::Fill(data) => data,
        RingOp::Drain(_) => Seq::empty(),
    }
}

/// Every operation of `ops`, applied in turn from `s`, fits.
pub open spec fn ops_fit(s: RingState, ops: Seq<RingOp>) -> bool
    decreases ops.len(),
{
    ops.len() == 0 || (op_fits(s, ops[0]) && ops_fit(apply_op(s, ops[0]), ops.drop_first()))
}

/// The state after all of `ops`, in turn.
pub open spec fn run_ops(s: RingState, ops: Seq<RingOp>) -> RingState
    decreases ops.len(),
{
    if ops.len() == 0 {
        s
    } else {
        run_ops(apply_op(s, ops[0]), ops.drop_first())
    }
}

/// All the bytes the streams supplied over `ops`, in order.
pub open spec fn ops_input(ops: Seq<RingOp>) -> Seq<u8>
    decreases ops.len(),
{
    if ops.len() == 0 {
        Seq::empty()
    } else {
        op_input(ops[0]) + ops_input(ops.drop_first())
    }
}

/// All the bytes the streams took over `ops`, in order.
pub open spec fn ops_output(s: RingState, ops: Seq<RingOp>) -> Seq<u8>
    decreases ops.len(),
{
    if ops.len() == 0 {
        Seq::empty()
    } else {
        op_output(s, ops[0]) + ops_output(apply_op(s, ops[0]), ops.drop_first())
    }
}

/// Over any run of fills and drains, nothing is lost, duplicated or
/// reordered: what was held before followed by everything supplied equals
/// everything taken followed by what is held after. From an empty buffer,
/// the bytes taken are a prefix of the bytes supplied, and the buffer holds
/// the rest.
pub proof fn lemma_run_conserves_bytes(s: RingState, ops: Seq<RingOp>)
    requires
        s.wf(),
        ops_fit(s, ops),
    ensures
        run_ops(s, ops).wf(),
        s.contents() + ops_input(ops) == ops_output(s, ops) + run_ops(s, ops).contents(),
        run_ops(s, ops).filled() + ops_output(s, ops).len() == s.filled() + ops_input(ops).len(),
    decreases ops.len(),
{
    if ops.len() == 0 {
        assert(s.contents() + ops_input(ops) =~= ops_output(s, ops) + run_ops(s, ops).contents());
        lemma_windows(s);
    } else {
        let op = ops[0];
        let rest = ops.drop_first();
        let t = apply_op(s, op);
        match op {
            RingOp::Fill(data) => {
                lemma_write_appends(s, data);
            },
            RingOp::Drain(n) => {
                lemma_consume_drops_oldest(s, n);
                lemma_windows(s);
                assert(s.read_window().take(n as int) =~= s.contents().take(n as int));
            },
        }
        lemma_run_conserves_bytes(t, rest);
        lemma_windows(s);
        lemma_windows(t);
        lemma_windows(run_ops(s, ops));
        assert(s.contents() + op_input(op) =~= op_output(s, op) + t.contents());
        assert(s.contents() + ops_input(ops) =~= (s.contents() + op_input(op)) + ops_input(rest));
        assert(ops_output(s, ops) + run_ops(s, ops).contents() =~= op_output(s, op) + (
        ops_output(t, rest) + run_ops(t, rest).contents()));
    }
}

/// A fixed-size circular buffer of `SIZE` bytes.
pub struct Ioribnbuffer<const SIZE: usize> {
    writei: usize,
    readi: usize,
    buff: Vec<u8>,
}

impl<const SIZE: usize> View for Ioribnbuffer<SIZE> {
    type V = RingState;

    closed spec fn view(&self) -> RingState {
        RingState {
            size: SIZE as nat,
            write_pos: self.writei as nat,
            read_pos: self.readi as nat,
            cells: self.buff@,
        }
    }
}

impl<const SIZE: usize> Ioribnbuffer<SIZE> {
    /// The buffer has `SIZE` cells and both positions lie inside them.
    pub open spec fn wf(&self) -> bool {
        &&& self@.size == SIZE
        &&& self@.cells.len() == SIZE
        &&& SIZE > 0 ==> self@.wf()
        &&& SIZE == 0 ==> self@.write_pos == 0 && self@.read_pos == 0
    }

    /// An empty buffer: both positions at cell 0, every cell 0.
    pub fn new() -> (b: Self)
        ensures
            b.wf(),
            b@.write_pos == 0,
            b@.read_pos == 0,
            b@.cells == Seq::new(SIZE as nat, |i: int| 0u8),
            b@.contents() == Seq::<u8>::empty(),
    {
        let buff: Vec<u8> = vec![0u8; SIZE];
        let b = Self { writei: 0, readi: 0, buff };
        assert(b@.cells =~= Seq::new(SIZE as nat, |i: int| 0u8));
        assert(b@.contents() =~= Seq::<u8>::empty());
        b
    }

    /// How many bytes the next fill can take: up to the end of the buffer
    /// when `writei >= readi` (one cell less when `readi` is 0), else up to
    /// the cell before `readi`.
    pub fn write_capacity(&self) -> (n: usize)
        requires
            self.wf(),
            SIZE > 0,
        ensures
            n == self@.write_room(),
            n + self@.filled() + 1 <= SIZE,
            self@.write_pos + n <= SIZE,
            n + self@.filled() + 1 == SIZE || self@.write_pos + n == SIZE,
    {
        proof {
            lemma_regions_are_maximal(self@);
        }
        if self.writei >= self.readi {
            if self.readi == 0 {
                SIZE - 1 - self.writei
            } else {
                SIZE - self.writei
            }
        } else {
            self.readi - self.writei - 1
        }
    }

    /// Stores the bytes a stream delivered into the fill region, starting
    /// at `writei`, and moves `writei` past them, wrapping to 0 at `SIZE`.
    /// Returns the number of bytes stored.
    pub fn write(&mut self, data: &[u8]) -> (rc: usize)
        requires
            old(self).wf(),
            SIZE > 0,
            data@.len() <= old(self)@.write_room(),
        ensures
            final(self).wf(),
            final(self)@ == old(self)@.wrote(data@),
            rc == data@.len(),
            final(self)@.contents() == old(self)@.contents() + data@,
            final(self)@.filled() == old(self)@.filled() + data@.len(),
            final(self)@.filled() < SIZE,
    {
        let ghost old_cells = self.buff@;
        let start = self.writei;
        let mut i: usize = 0;
        while i < data.len()
            invariant
                0 <= i <= data@.len(),
                start == self.writei,
                self.writei == old(self).writei,
                self.readi == old(self).readi,
                old_cells == old(self).buff@,
                start + data@.len() <= SIZE,
                self.buff@.len() == old_cells.len(),
                old_cells.len() == SIZE,
                forall|j: int| 0 <= j < start ==> self.buff@[j] == old_cells[j],
                forall|j: int| start <= j < start + i ==> self.buff@[j] == data@[j - start],
                forall|j: int| start + i <= j < SIZE ==> self.buff@[j] == old_cells[j],
            decreases data@.len() - i,
        {
            self.buff.set(start + i, data[i]);
            i = i + 1;
        }
        self.writei = (start + data.len()) % SIZE;
        proof {
            let expect = old(self)@.wrote(data@);
            assert(self.buff@ =~= expect.cells);
            lemma_write_appends(old(self)@, data@);
        }
        data.len()
    }

    /// The bytes the next drain offers a stream: from `readi` to the end of
    /// the buffer when `readi > writei`, else up to `writei`.
    pub fn readable(&self) -> (out: Vec<u8>)
        requires
            self.wf(),
            SIZE > 0,
        ensures
            out@ == self@.read_window(),
            out@ == self@.contents().take(self@.read_room() as int),
            out@.len() <= self@.filled(),
            self@.read_pos + out@.len() <= SIZE,
            out@.len() == self@.filled() || self@.read_pos + out@.len() == SIZE,
            out@ == self@.contents().take(out@.len() as int),
    {
        proof {
            lemma_regions_are_maximal(self@);
        }
        let end = if self.readi > self.writei {
            SIZE
        } else {
            self.writei
        };
        let mut out: Vec<u8> = Vec::new();
        let mut j: usize = self.readi;
        while j < end
            invariant
                self.readi <= j <= end,
                end <= self.buff@.len(),
                out@ == self.buff@.subrange(self.readi as int, j as int),
            decreases end - j,
        {
            out.push(self.buff[j]);
            j = j + 1;
            assert(out@ =~= self.buff@.subrange(self.readi as int, j as int));
        }
        proof {
            lemma_windows(self@);
        }
        out
    }

    /// Records that a stream took the first `sent` bytes of the drain
    /// region: moves `readi` past them, wrapping to 0 at `SIZE`.
    /// Returns `sent`.
    pub fn read(&mut self, sent: usize) -> (rc: usize)
        requires
            old(self).wf(),
            SIZE > 0,
            sent <= old(self)@.read_room(),
        ensures
            final(self).wf(),
            final(self)@ == old(self)@.consumed(sent as nat),
            final(self)@.contents() == old(self)@.contents().skip(sent as int),
            rc == sent,
    {
        self.readi = (self.readi + sent) % SIZE;
        proof {
            lemma_consume_drops_oldest(old(self)@, sent as nat);
        }
        sent
    }

    /// Number of bytes held.
    pub fn len(&self) -> (n: usize)
        requires
            self.wf(),
        ensures
            n == self@.filled(),
            n == self@.contents().len(),
    {
        if self.writei >= self.readi {
            self.writei - self.readi
        } else {
            SIZE - self.readi + self.writei
        }
    }
}

} // verus!
