//! The UART driver: initialisation, blocking byte transfer and interrupts.
use vstd::prelude::*;

use crate::regs::{
    control_spec, control_word, line_control_spec, line_control_word, reg_write,
    rx_empty_spec, rx_interrupt, rx_interrupt_spec, status_after_clear, status_in_range, tx_busy, tx_busy_spec, RegWrite, WordLength, INIT_FBRD,
    INIT_IBRD, INIT_IFLS, INT_ALL, UART_CR, UART_DR, UART_FBRD, UART_IBRD, UART_ICR, UART_IFLS,
    UART_IMSC, UART_LCR_H,
};

use crate::waker::WakeCell;

verus! {

/// A PL011 UART whose registers are mapped at `base`.
///
/// The driver holds the wake cell through which an interrupt resumes a
/// suspended write, and counts the interrupts it has handled.
pub struct Pl011Uart {
    pub base: usize,
    pub waker: WakeCell,
    pub irq_count: usize,
}

/// What one pass of the interrupt entry point did.
#[derive(Clone, Copy, Debug, PartialEq, Eq, Structural)]
pub struct IrqOutcome {
    /// The monitored condition was seen and the wake cell was fired.
    pub woke: bool,
    /// The write that acknowledges every interrupt source.
    pub clear: RegWrite,
}

/// The register writes of initialisation, in order: disable the UART, program
/// the baud divisors, select 8-bit words, set the FIFO trigger levels, unmask
/// every interrupt source, then enable the UART with transmit and receive.
pub open spec fn init_writes() -> Seq<RegWrite> {
    seq![
        reg_write(UART_CR, control_spec(false, false, false)),
        reg_write(UART_IBRD, INIT_IBRD),
        reg_write(UART_FBRD, INIT_FBRD),
        reg_write(UART_LCR_H, line_control_spec(WordLength::Bits8)),
        reg_write(UART_IFLS, INIT_IFLS),
        reg_write(UART_IMSC, INT_ALL),
        reg_write(UART_CR, control_spec(true, true, true)),
    ]
}

/// The write that acknowledges every interrupt source.
pub open spec fn ack_write() -> RegWrite {
    reg_write(UART_ICR, INT_ALL)
}

/// The write that puts byte `c` on the wire.
pub open spec fn data_write(c: u8) -> RegWrite {
    reg_write(UART_DR, c as u32)
}

/// What a blocking write of `c` does when the flag register reads `flags`:
/// nothing while the transmitter is busy, else the data write.
pub open spec fn putchar_spec(c: u8, flags: u32) -> Option<RegWrite> {
    if tx_busy_spec(flags) {
        None
    } else {
        Some(data_write(c))
    }
}

/// Acknowledging interrupts leaves every interrupt status word, raw or
/// masked, reading as fully cleared.
pub proof fn lemma_ack_clears_status(status: u32)
    requires
        status_in_range(status),
    ensures
        status_after_clear(status, ack_write().value) == 0,
{
    assert(status < 0x800 ==> status & !0x7ffu32 == 0) by (bit_vector);
}

impl Pl011Uart {
    /// The driver is bound to a register block.
    pub open spec fn wf(&self) -> bool {
        self.base != 0
    }

    /// A driver for the register block mapped at `base`, with no waker
    /// registered and no interrupt counted.
    pub fn new(base: usize) -> (r: Self)
        requires
            base != 0,
        ensures
            r.wf(),
            r.base == base,
            r.irq_count == 0,
            !r.waker.has_waker(),
    {
        Pl011Uart { base, waker: WakeCell::new(), irq_count: 0 }
    }

    /// The register writes that initialise the device, in the order they are
    /// to be performed.
    pub fn init(&mut self) -> (r: Vec<RegWrite>)
        ensures
            r@ == init_writes(),
            *final(self) == *old(self),
    {
        let mut w: Vec<RegWrite> = Vec::new();
        w.push(RegWrite { offset: UART_CR, value: control_word(false, false, false) });
        w.push(RegWrite { offset: UART_IBRD, value: INIT_IBRD });
        w.push(RegWrite { offset: UART_FBRD, value: INIT_FBRD });
        w.push(RegWrite { offset: UART_LCR_H, value: line_control_word(WordLength::Bits8) });
        w.push(RegWrite { offset: UART_IFLS, value: INIT_IFLS });
        w.push(RegWrite { offset: UART_IMSC, value: INT_ALL });
        w.push(RegWrite { offset: UART_CR, value: control_word(true, true, true) });
        assert(w@ =~= init_writes());
        w
    }

    /// One step of a blocking write of `c`, given the flag register's value:
    /// `None` while the transmitter is busy (read the flags again), else the
    /// data write to perform.
    pub fn putchar(&mut self, c: u8, flags: u32) -> (r: Option<RegWrite>)
        ensures
            r == putchar_spec(c, flags),
            *final(self) == *old(self),
    {
        if tx_busy(flags) {
            None
        } else {
            Some(RegWrite { offset: UART_DR, value: c as u32 })
        }
    }

    /// The byte received, from the data register's value `data`, read after
    /// the flag register read `flags` with the receive FIFO not empty (while it
    /// reads empty, the flag register is read again and the data register is
    /// left alone).
    pub fn getchar(&mut self, flags: u32, data: u32) -> (r: u8)
        requires
            !rx_empty_spec(flags),
        ensures
            r as u32 == data % 256,
            *final(self) == *old(self),
    {
        let low = data & 0xff;
        assert(low == data % 256 && low < 256) by (bit_vector)
            requires
                low == data & 0xff,
        ;
        low as u8
    }

    /// Whether the receive interrupt is pending, from the masked interrupt
    /// status register's value.
    pub fn is_receive_interrupt(&self, masked_status: u32) -> (r: bool)
        ensures
            r == rx_interrupt_spec(masked_status),
    {
        rx_interrupt(masked_status)
    }

    /// The write that clears every pending interrupt.
    pub fn ack_interrupts(&mut self) -> (r: RegWrite)
        ensures
            r == ack_write(),
            *final(self) == *old(self),
    {
        RegWrite { offset: UART_ICR, value: INT_ALL }
    }

    /// The interrupt entry point, given the masked interrupt status register's
    /// value: counts the interrupt, wakes the registered writer when the
    /// receive interrupt is pending, and acknowledges every source.
    pub fn handle_interrupt(&mut self, masked_status: u32) -> (r: IrqOutcome)
        requires
            old(self).irq_count < usize::MAX,
        ensures
            final(self).irq_count == old(self).irq_count + 1,
            final(self).base == old(self).base,
            r.woke == rx_interrupt_spec(masked_status),
            r.woke ==> !final(self).waker.has_waker(),
            !r.woke ==> final(self).waker == old(self).waker,
            r.clear == ack_write(),
    {
        self.irq_count = self.irq_count + 1;
        let woke = self.is_receive_interrupt(masked_status);
        if woke {
            self.waker.wake();
        }
        let clear = self.ack_interrupts();
        IrqOutcome { woke, clear }
    }
}

} // verus!
