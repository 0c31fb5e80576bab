//! Register map of the PL011 and the encoding of its bit fields.
use vstd::prelude::*;

verus! {

/// Data register (read/write): one byte in or out.
pub const UART_DR: usize = 0x00;

/// Flag register (read only).
pub const UART_FR: usize = 0x18;

/// Integer baud-rate divisor.
pub const UART_IBRD: usize = 0x24;

/// Fractional baud-rate divisor.
pub const UART_FBRD: usize = 0x28;

/// Line control register.
pub const UART_LCR_H: usize = 0x2c;

/// Control register.
pub const UART_CR: usize = 0x30;

/// Interrupt FIFO level select register.
pub const UART_IFLS: usize = 0x34;

/// Interrupt mask set/clear register.
pub const UART_IMSC: usize = 0x38;

/// Raw interrupt status register (read only).
pub const UART_RIS: usize = 0x3c;

/// Masked interrupt status register (read only).
pub const UART_MIS: usize = 0x40;

/// Interrupt clear register (write only, write one to clear).
pub const UART_ICR: usize = 0x44;

/// Flag register: the transmitter is busy shifting out a byte.
pub const FR_BUSY: u32 = 0x08;

/// Flag register: the receive FIFO is empty.
pub const FR_RXFE: u32 = 0x10;

/// Flag register: the transmit FIFO is full.
pub const FR_TXFF: u32 = 0x20;

/// Interrupt registers: the receive interrupt bit.
pub const INT_RX: u32 = 0x10;

/// Interrupt registers: every interrupt source of the device.
pub const INT_ALL: u32 = 0x7ff;

/// Control register: UART enable.
pub const CR_UARTEN: u32 = 0x001;

/// Control register: transmit enable.
pub const CR_TXE: u32 = 0x100;

/// Control register: receive enable.
pub const CR_RXE: u32 = 0x200;

/// Line control register: position of the two-bit word length field.
pub const LCR_H_WLEN_SHIFT: u32 = 5;

/// Integer baud-rate divisor programmed by initialisation.
pub const INIT_IBRD: u32 = 100_000_000;

/// Fractional baud-rate divisor programmed by initialisation.
pub const INIT_FBRD: u32 = 115200;

/// Interrupt FIFO trigger levels programmed by initialisation (1/8 full for
/// both FIFOs).
pub const INIT_IFLS: u32 = 0;

/// One write of `value` to the register at byte `offset` from the base.
#[derive(Clone, Copy, Debug, PartialEq, Eq, Structural)]
pub struct RegWrite {
    pub offset: usize,
    pub value: u32,
}

/// The write of `value` to the register at `offset`.
pub open spec fn reg_write(offset: usize, value: u32) -> RegWrite {
    RegWrite { offset, value }
}

/// The bit `mask` is set in `word`.
pub open spec fn bit_set(word: u32, mask: u32) -> bool {
    word & mask != 0
}

/// The flag word says the transmitter is busy.
pub open spec fn tx_busy_spec(flags: u32) -> bool {
    bit_set(flags, FR_BUSY)
}

/// The flag word says the receive FIFO is empty.
pub open spec fn rx_empty_spec(flags: u32) -> bool {
    bit_set(flags, FR_RXFE)
}

/// The flag word says the transmit FIFO is full.
pub open spec fn tx_full_spec(flags: u32) -> bool {
    bit_set(flags, FR_TXFF)
}

/// The interrupt status word has the receive interrupt pending.
pub open spec fn rx_interrupt_spec(status: u32) -> bool {
    bit_set(status, INT_RX)
}

/// Whether the transmitter is busy, from a value of the flag register.
pub fn tx_busy(flags: u32) -> (r: bool)
    ensures
        r == tx_busy_spec(flags),
{
    flags & FR_BUSY != 0
}

/// Whether the receive FIFO is empty, from a value of the flag register.
pub fn rx_empty(flags: u32) -> (r: bool)
    ensures
        r == rx_empty_spec(flags),
{
    flags & FR_RXFE != 0
}

/// Whether the transmit FIFO is full, from a value of the flag register.
pub fn tx_full(flags: u32) -> (r: bool)
    ensures
        r == tx_full_spec(flags),
{
    flags & FR_TXFF != 0
}

/// Whether the receive interrupt is pending, from a value of an interrupt
/// status register.
pub fn rx_interrupt(status: u32) -> (r: bool)
    ensures
        r == rx_interrupt_spec(status),
{
    status & INT_RX != 0
}


/// Number of data bits in a character, as the line control register's word
/// length field encodes it.
#[derive(Clone, Copy, Debug, PartialEq, Eq, Structural)]
pub enum WordLength {
    Bits5,
    Bits6,
    Bits7,
    Bits8,
}

/// The two-bit code of a word length.
pub open spec fn word_length_code(len: WordLength) -> u32 {
    match len {
        WordLength::Bits5 => 0,
        WordLength::Bits6 => 1,
        WordLength::Bits7 => 2,
        WordLength::Bits8 => 3,
    }
}

/// The line control word that selects `len` and leaves break, parity, two stop
/// bits, FIFOs and stick parity off.
pub open spec fn line_control_spec(len: WordLength) -> u32 {
    (word_length_code(len) * 32) as u32
}

/// The control word with the enable bits as given and all others clear.
pub open spec fn control_spec(enable: bool, txe: bool, rxe: bool) -> u32 {
    ((if enable { CR_UARTEN } else { 0 }) + (if txe { CR_TXE } else { 0 }) + (if rxe {
        CR_RXE
    } else {
        0
    })) as u32
}

/// Encodes a line control word: the word length field set to `len`, every
/// other field clear.
pub fn line_control_word(len: WordLength) -> (r: u32)
    ensures
        r == line_control_spec(len),
{
    let code: u32 = match len {
        WordLength::Bits5 => 0,
        WordLength::Bits6 => 1,
        WordLength::Bits7 => 2,
        WordLength::Bits8 => 3,
    };
    assert(code << LCR_H_WLEN_SHIFT == code * 32) by (bit_vector)
        requires
            code < 4,
    ;
    code << LCR_H_WLEN_SHIFT
}

/// Encodes a control word: the UART, transmit and receive enable bits as
/// given, every other bit clear.
pub fn control_word(enable: bool, txe: bool, rxe: bool) -> (r: u32)
    ensures
        r == control_spec(enable, txe, rxe),
{
    let mut w: u32 = 0;
    if enable {
        w = w + CR_UARTEN;
    }
    if txe {
        w = w + CR_TXE;
    }
    if rxe {
        w = w + CR_RXE;
    }
    w
}

/// What an interrupt status register reads after `cleared` is written to the
/// interrupt clear register: each bit written as one is cleared, the others
/// stay.
pub open spec fn status_after_clear(status: u32, cleared: u32) -> u32 {
    status & !cleared
}

/// An interrupt status word holds only the eleven bits of the device's
/// interrupt sources.
pub open spec fn status_in_range(status: u32) -> bool {
    status < 0x800
}

} // verus!
