//! The asynchronous write: a buffer drained into the transmit FIFO, suspending
//! while the FIFO is full.
use vstd::prelude::*;

use crate::regs::{tx_busy, tx_busy_spec, tx_full, tx_full_spec, RegWrite, UART_DR};
use crate::uart::{data_write, Pl011Uart};

verus! {

/// What one drive step of a write asks of its caller.
#[derive(Clone, Copy, Debug, PartialEq, Eq, Structural)]
pub enum WriteStep {
    /// The whole buffer went out; the number of bytes written.
    Ready(usize),
    /// The transmit FIFO is full: a waker was registered, drive again once woken.
    Pending,
    /// The transmitter is busy: read the flag register and drive again.
    Busy,
    /// Perform this write, then drive again.
    Write(RegWrite),
}

/// A write of a byte buffer in progress, holding the driver for its lifetime.
pub struct WriteFuture<'a> {
    pl011: &'a mut Pl011Uart,
    bytes: &'a [u8],
    n: usize,
}

/// One drive step on `bytes` with `n` of them already written, when the flag
/// register reads `flags`: the new count and the step.
pub open spec fn write_step(bytes: Seq<u8>, n: nat, flags: u32) -> (nat, WriteStep) {
    if n >= bytes.len() {
        (n, WriteStep::Ready(n as usize))
    } else if tx_full_spec(flags) {
        (n, WriteStep::Pending)
    } else if tx_busy_spec(flags) {
        (n, WriteStep::Busy)
    } else {
        ((n + 1) as nat, WriteStep::Write(data_write(bytes[n as int])))
    }
}

/// The steps of driving a write on `bytes`, with `n` already written, once for
/// each successive reading of the flag register in `flags`.
pub open spec fn run(bytes: Seq<u8>, n: nat, flags: Seq<u32>) -> Seq<WriteStep>
    decreases flags.len(),
{
    if flags.len() == 0 {
        seq![]
    } else {
        let (m, s) = write_step(bytes, n, flags[0]);
        seq![s] + run(bytes, m, flags.drop_first())
    }
}

/// The byte that a step puts on the wire, if any.
pub open spec fn step_data(s: WriteStep) -> Seq<u8> {
    match s {
        WriteStep::Write(w) => seq![w.value as u8],
        _ => seq![],
    }
}

/// The bytes that a run of steps puts on the wire, in order.
pub open spec fn data_of(steps: Seq<WriteStep>) -> Seq<u8>
    decreases steps.len(),
{
    if steps.len() == 0 {
        seq![]
    } else {
        step_data(steps[0]) + data_of(steps.drop_first())
    }
}

proof fn lemma_data_of_cons(s: WriteStep, rest: Seq<WriteStep>)
    ensures
        data_of(seq![s] + rest) == step_data(s) + data_of(rest),
{
    assert((seq![s] + rest).drop_first() =~= rest);
}

proof fn lemma_run_len(bytes: Seq<u8>, n: nat, flags: Seq<u32>)
    ensures
        run(bytes, n, flags).len() == flags.len(),
    decreases flags.len(),
{
    if flags.len() > 0 {
        let (m, s) = write_step(bytes, n, flags[0]);
        lemma_run_len(bytes, m, flags.drop_first());
    }
}

proof fn lemma_run_from(bytes: Seq<u8>, n: nat, flags: Seq<u32>)
    requires
        n <= bytes.len() <= usize::MAX,
    ensures
        n + data_of(run(bytes, n, flags)).len() <= bytes.len(),
        data_of(run(bytes, n, flags)) == bytes.subrange(
            n as int,
            (n + data_of(run(bytes, n, flags)).len()) as int,
        ),
        forall|i: int|
            0 <= i < run(bytes, n, flags).len() && (#[trigger] run(bytes, n, flags)[i]) is Ready
                ==> run(bytes, n, flags)[i]->Ready_0 == bytes.len() && data_of(
                run(bytes, n, flags).take(i),
            ) == bytes.subrange(n as int, bytes.len() as int),
    decreases flags.len(),
{
    let r = run(bytes, n, flags);
    if flags.len() == 0 {
        assert(data_of(r) =~= bytes.subrange(n as int, n as int));
    } else {
        let (m, s) = write_step(bytes, n, flags[0]);
        let rest = run(bytes, m, flags.drop_first());
        lemma_run_from(bytes, m, flags.drop_first());
        lemma_data_of_cons(s, rest);
        assert(r == seq![s] + rest);
        if s is Write {
            assert(step_data(s) =~= seq![bytes[n as int]]);
            assert(data_of(r) =~= bytes.subrange(n as int, (n + data_of(r).len()) as int));
        } else {
            assert(step_data(s) =~= Seq::<u8>::empty());
            assert(data_of(r) =~= data_of(rest));
        }
        assert forall|i: int|
            0 <= i < r.len() && (#[trigger] r[i]) is Ready implies r[i]->Ready_0 == bytes.len()
                && data_of(r.take(i)) == bytes.subrange(n as int, bytes.len() as int) by {
            assert(r[0] == s);
            if i == 0 {
                assert(n == bytes.len());
                assert(r.take(0) =~= Seq::<WriteStep>::empty());
                assert(bytes.subrange(n as int, bytes.len() as int) =~= Seq::<u8>::empty());
            } else {
                assert(rest[i - 1] == r[i]);
                assert(r.take(i) =~= seq![s] + rest.take(i - 1));
                lemma_data_of_cons(s, rest.take(i - 1));
                if s is Write {
                    assert(step_data(s) =~= seq![bytes[n as int]]);
                    assert(data_of(r.take(i)) =~= bytes.subrange(n as int, bytes.len() as int));
                } else {
                    assert(step_data(s) =~= Seq::<u8>::empty());
                    assert(data_of(r.take(i)) =~= data_of(rest.take(i - 1)));
                }
            }
        }
    }
}

/// Every flag reading in `flags` shows neither a full FIFO nor a busy
/// transmitter.
pub open spec fn all_clear(flags: Seq<u32>) -> bool {
    forall|i: int| 0 <= i < flags.len() ==> !tx_full_spec(#[trigger] flags[i]) && !tx_busy_spec(
        flags[i],
    )
}

proof fn lemma_clear_run_completes(bytes: Seq<u8>, n: nat, flags: Seq<u32>)
    requires
        n <= bytes.len() <= usize::MAX,
        flags.len() > bytes.len() - n,
        all_clear(flags),
    ensures
        run(bytes, n, flags)[bytes.len() - n] == WriteStep::Ready(bytes.len() as usize),
    decreases flags.len(),
{
    let (m, s) = write_step(bytes, n, flags[0]);
    let rest = run(bytes, m, flags.drop_first());
    assert(run(bytes, n, flags) == seq![s] + rest);
    lemma_run_len(bytes, m, flags.drop_first());
    if n < bytes.len() {
        assert(!tx_full_spec(flags[0]) && !tx_busy_spec(flags[0]));
        assert forall|i: int| 0 <= i < flags.drop_first().len() implies !tx_full_spec(
            #[trigger] flags.drop_first()[i],
        ) && !tx_busy_spec(flags.drop_first()[i]) by {
            assert(flags.drop_first()[i] == flags[i + 1]);
        }
        lemma_clear_run_completes(bytes, m, flags.drop_first());
    }
}

/// Driving a write of `bytes` puts on the wire, whatever the flag register
/// reads at each step, a prefix of `bytes` in order; a step that completes
/// reports the buffer's length, with the whole buffer written before it; and
/// when no reading shows a full FIFO or a busy transmitter, the step after the
/// last byte completes.
pub proof fn lemma_write_drains_in_order(bytes: Seq<u8>, flags: Seq<u32>)
    requires
        bytes.len() <= usize::MAX,
    ensures
        data_of(run(bytes, 0, flags)) == bytes.take(data_of(run(bytes, 0, flags)).len() as int),
        forall|i: int|
            0 <= i < run(bytes, 0, flags).len() && (#[trigger] run(bytes, 0, flags)[i]) is Ready
                ==> run(bytes, 0, flags)[i]->Ready_0 == bytes.len() && data_of(
                run(bytes, 0, flags).take(i),
            ) == bytes,
        all_clear(flags) && flags.len() > bytes.len() ==> run(bytes, 0, flags)[bytes.len() as int]
            == WriteStep::Ready(bytes.len() as usize),
{
    lemma_run_from(bytes, 0, flags);
    assert(bytes.subrange(0, bytes.len() as int) =~= bytes);
    if all_clear(flags) && flags.len() > bytes.len() {
        lemma_clear_run_completes(bytes, 0, flags);
    }
}

impl<'a> WriteFuture<'a> {
    /// The buffer being written.
    pub closed spec fn buffer(&self) -> Seq<u8> {
        self.bytes@
    }

    /// How many bytes of the buffer were written so far.
    pub closed spec fn sent(&self) -> nat {
        self.n as nat
    }

    /// The count never passes the buffer's end.
    pub closed spec fn wf(&self) -> bool {
        self.n <= self.bytes@.len()
    }

    /// The driver the write holds.
    pub closed spec fn driver(&self) -> Pl011Uart {
        *self.pl011
    }

    /// One drive step, given the flag register's value: completes once every
    /// byte is written; registers `waker` with the driver and suspends while the
    /// transmit FIFO is full; waits while the transmitter is busy; else hands
    /// back the write of the next byte.
    pub fn poll(&mut self, flags: u32, waker: &core::task::Waker) -> (r: WriteStep)
        requires
            old(self).wf(),
        ensures
            final(self).wf(),
            final(self).buffer() == old(self).buffer(),
            (final(self).sent(), r) == write_step(old(self).buffer(), old(self).sent(), flags),
            final(self).sent() <= final(self).buffer().len(),
            r matches WriteStep::Ready(v) ==> v as nat == final(self).buffer().len(),
            final(self).driver().base == old(self).driver().base,
            final(self).driver().irq_count == old(self).driver().irq_count,
            r is Pending ==> final(self).driver().waker.has_waker(),
            !(r is Pending) ==> final(self).driver() == old(self).driver(),
    {
        if self.n >= self.bytes.len() {
            return WriteStep::Ready(self.n);
        }
        if tx_full(flags) {
            self.pl011.waker.register(waker);
            return WriteStep::Pending;
        }
        if tx_busy(flags) {
            return WriteStep::Busy;
        }
        let b = self.bytes[self.n];
        self.n = self.n + 1;
        WriteStep::Write(RegWrite { offset: UART_DR, value: b as u32 })
    }

    /// Whether every byte of the buffer was written; a step then completes
    /// whatever the flag register reads.
    pub fn is_complete(&self) -> (r: bool)
        ensures
            r == (self.sent() >= self.buffer().len()),
    {
        self.n >= self.bytes.len()
    }

    /// Drives the write once for each reading of the flag register in
    /// `flags`, in order, registering `waker` each time it suspends: the steps,
    /// one per reading. The bytes that the steps write are the next ones of the
    /// buffer, in order, and a step that completes reports the buffer's length
    /// with every byte written before it.
    pub fn drive(&mut self, flags: &[u32], waker: &core::task::Waker) -> (r: Vec<WriteStep>)
        requires
            old(self).wf(),
        ensures
            final(self).wf(),
            final(self).buffer() == old(self).buffer(),
            r@ == run(old(self).buffer(), old(self).sent(), flags@),
            final(self).driver().base == old(self).driver().base,
            final(self).driver().irq_count == old(self).driver().irq_count,
            data_of(r@) == old(self).buffer().subrange(
                old(self).sent() as int,
                (old(self).sent() + data_of(r@).len()) as int,
            ),
            forall|i: int|
                0 <= i < r@.len() && (#[trigger] r@[i]) is Ready ==> r@[i]->Ready_0
                    == old(self).buffer().len() && data_of(r@.take(i)) == old(
                    self,
                ).buffer().subrange(old(self).sent() as int, old(self).buffer().len() as int),
    {
        let ghost buf = self.buffer();
        let ghost n0 = self.sent();
        let len = self.bytes.len();
        let mut r: Vec<WriteStep> = Vec::new();
        let mut i: usize = 0;
        assert(flags@.skip(0) =~= flags@);
        assert(r@ + run(buf, n0, flags@) =~= run(buf, n0, flags@));
        while i < flags.len()
            invariant
                0 <= i <= flags@.len(),
                self.wf(),
                len == buf.len(),
                self.driver().base == old(self).driver().base,
                self.driver().irq_count == old(self).driver().irq_count,
                self.buffer() == buf,
                r@ + run(buf, self.sent(), flags@.skip(i as int)) == run(buf, n0, flags@),
            decreases flags@.len() - i,
        {
            let ghost n = self.sent();
            assert(flags@.skip(i as int).drop_first() =~= flags@.skip(i + 1));
            assert(flags@.skip(i as int)[0] == flags@[i as int]);
            let s = self.poll(flags[i], waker);
            let ghost rest = run(buf, self.sent(), flags@.skip(i + 1));
            assert(run(buf, n, flags@.skip(i as int)) == seq![s] + rest);
            assert(r@ + (seq![s] + rest) =~= r@.push(s) + rest);
            r.push(s);
            i = i + 1;
        }
        assert(flags@.skip(i as int) =~= Seq::<u32>::empty());
        assert(r@ =~= run(buf, n0, flags@));
        proof {
            lemma_run_from(buf, n0, flags@);
        }
        r
    }

    /// The driver the write holds, so that its interrupt entry point can run
    /// while the write is suspended.
    pub fn uart(&mut self) -> (r: &mut Pl011Uart)
        ensures
            *r == old(self).driver(),
            final(self).driver() == *final(r),
            final(self).buffer() == old(self).buffer(),
            final(self).sent() == old(self).sent(),
            final(self).wf() == old(self).wf(),
    {
        self.pl011
    }
}

impl Pl011Uart {
    /// A write of `bytes` bound to this driver; performs no register access.
    pub fn write_byte<'a>(&'a mut self, bytes: &'a [u8]) -> (r: WriteFuture<'a>)
        ensures
            r.wf(),
            r.buffer() == bytes@,
            r.sent() == 0,
            r.driver() == *old(self),
    {
        WriteFuture { pl011: self, bytes, n: 0 }
    }
}

} // verus!
