use std::sync::atomic::{AtomicUsize, Ordering};
use std::sync::Arc;
use std::task::{Wake, Waker};

use pl101::regs::{
    control_word, line_control_word, rx_empty, rx_interrupt, tx_busy, tx_full, FR_BUSY,
    FR_RXFE, FR_TXFF, INT_ALL, INT_RX, UART_CR, UART_DR, UART_FBRD, UART_IBRD, UART_ICR,
    UART_IFLS, UART_IMSC, UART_LCR_H,
};
use pl101::{IrqOutcome, Pl011Uart, RegWrite, WordLength, WriteStep};

/// A register block that records every write and answers reads from fields.
struct Mock {
    flags: u32,
    busy_reads: usize,
    raw: u32,
    masked: u32,
    log: Vec<RegWrite>,
}

impl Mock {
    fn new() -> Mock {
        Mock { flags: 0, busy_reads: 0, raw: 0, masked: 0, log: Vec::new() }
    }

    fn read_flags(&mut self) -> u32 {
        if self.busy_reads > 0 {
            self.busy_reads -= 1;
            self.flags | FR_BUSY
        } else {
            self.flags
        }
    }

    fn write(&mut self, w: RegWrite) {
        if w.offset == UART_ICR {
            self.raw &= !w.value;
            self.masked &= !w.value;
        }
        self.log.push(w);
    }

    fn data(&self) -> Vec<u8> {
        self.log.iter().filter(|w| w.offset == UART_DR).map(|w| w.value as u8).collect()
    }
}

struct Counter(AtomicUsize);

impl Wake for Counter {
    fn wake(self: Arc<Self>) {
        self.0.fetch_add(1, Ordering::SeqCst);
    }
}

fn counting_waker() -> (Arc<Counter>, Waker) {
    let c = Arc::new(Counter(AtomicUsize::new(0)));
    let w = Waker::from(c.clone());
    (c, w)
}

fn blocking_putchar(uart: &mut Pl011Uart, mock: &mut Mock, c: u8) -> usize {
    let mut busy_seen: usize = 0;
    loop {
        let flags = mock.read_flags();
        match uart.putchar(c, flags) {
            None => busy_seen += 1,
            Some(w) => {
                assert!(!tx_busy(flags));
                mock.write(w);
                return busy_seen;
            }
        }
    }
}

#[test]
fn it_works() {
    let a = 2;
    let b = 2;
    assert_eq!(a + b, 4);
    let mut mock = Mock::new();
    let mut pl011 = Pl011Uart::new(0x0900_0000);
    for w in pl011.init() {
        mock.write(w);
    }
    for &c in b"Hello, world!\n".iter() {
        blocking_putchar(&mut pl011, &mut mock, c);
    }
    assert_eq!(mock.data(), b"Hello, world!\n".to_vec());
}

#[test]
fn new_binds_base() {
    let uart = Pl011Uart::new(0x1000);
    assert_eq!(uart.base, 0x1000);
    assert_eq!(uart.irq_count, 0);
}

#[test]
fn init_programs_registers_in_order() {
    let mut uart = Pl011Uart::new(0x1000);
    let w = uart.init();
    let expected = vec![
        RegWrite { offset: UART_CR, value: 0 },
        RegWrite { offset: UART_IBRD, value: 100_000_000 },
        RegWrite { offset: UART_FBRD, value: 115200 },
        RegWrite { offset: UART_LCR_H, value: 0x60 },
        RegWrite { offset: UART_IFLS, value: 0 },
        RegWrite { offset: UART_IMSC, value: 0x7ff },
        RegWrite { offset: UART_CR, value: 0x301 },
    ];
    assert_eq!(w, expected);
}

#[test]
fn register_offsets() {
    assert_eq!(UART_DR, 0x00);
    assert_eq!(UART_LCR_H, 0x2c);
    assert_eq!(UART_CR, 0x30);
    assert_eq!(UART_ICR, 0x44);
}

#[test]
fn line_control_word_lengths() {
    assert_eq!(line_control_word(WordLength::Bits5), 0x00);
    assert_eq!(line_control_word(WordLength::Bits6), 0x20);
    assert_eq!(line_control_word(WordLength::Bits7), 0x40);
    assert_eq!(line_control_word(WordLength::Bits8), 0x60);
}

#[test]
fn control_word_bits() {
    assert_eq!(control_word(false, false, false), 0);
    assert_eq!(control_word(true, false, false), 0x001);
    assert_eq!(control_word(false, true, false), 0x100);
    assert_eq!(control_word(false, false, true), 0x200);
    assert_eq!(control_word(true, true, true), 0x301);
}

#[test]
fn flag_predicates() {
    assert!(tx_busy(FR_BUSY));
    assert!(!tx_busy(FR_RXFE | FR_TXFF));
    assert!(rx_empty(FR_RXFE));
    assert!(!rx_empty(FR_BUSY));
    assert!(tx_full(FR_TXFF));
    assert!(!tx_full(FR_BUSY | FR_RXFE));
    assert!(rx_interrupt(INT_RX));
    assert!(!rx_interrupt(0x20));
}

#[test]
fn blocking_write_waits_for_busy_clear() {
    let mut uart = Pl011Uart::new(0x1000);
    let mut mock = Mock::new();
    for w in uart.init() {
        mock.write(w);
    }
    let before = mock.log.len();
    mock.busy_reads = 3;
    let waited = blocking_putchar(&mut uart, &mut mock, 0x48);
    assert_eq!(waited, 3);
    assert_eq!(mock.log.len(), before + 1);
    assert_eq!(mock.log[before], RegWrite { offset: UART_DR, value: 0x48 });
}

#[test]
fn putchar_busy_gives_nothing() {
    let mut uart = Pl011Uart::new(0x1000);
    assert_eq!(uart.putchar(0x48, FR_BUSY), None);
    assert_eq!(uart.putchar(0x48, FR_TXFF), Some(RegWrite { offset: UART_DR, value: 0x48 }));
}

#[test]
fn getchar_takes_low_byte() {
    let mut uart = Pl011Uart::new(0x1000);
    assert_eq!(uart.getchar(0, 0x0000_0f41), 0x41);
    assert_eq!(uart.getchar(FR_BUSY | FR_TXFF, 0xffff_ffff), 0xff);
    assert_eq!(uart.getchar(0, 0), 0);
    assert!(rx_empty(FR_RXFE));
}

#[test]
fn receive_interrupt_bit() {
    let uart = Pl011Uart::new(0x1000);
    assert!(uart.is_receive_interrupt(0x10));
    assert!(uart.is_receive_interrupt(0x7ff));
    assert!(!uart.is_receive_interrupt(0x20));
    assert!(!uart.is_receive_interrupt(0));
}

#[test]
fn ack_clears_status() {
    let mut uart = Pl011Uart::new(0x1000);
    let mut mock = Mock::new();
    mock.raw = 0x7ff;
    mock.masked = 0x050;
    let w = uart.ack_interrupts();
    assert_eq!(w, RegWrite { offset: UART_ICR, value: INT_ALL });
    mock.write(w);
    assert_eq!(mock.raw, 0);
    assert_eq!(mock.masked, 0);
}

#[test]
fn interrupt_counts_every_call() {
    let mut uart = Pl011Uart::new(0x1000);
    let a = uart.handle_interrupt(0);
    assert_eq!(uart.irq_count, 1);
    assert_eq!(a, IrqOutcome { woke: false, clear: RegWrite { offset: UART_ICR, value: 0x7ff } });
    let b = uart.handle_interrupt(INT_RX);
    assert_eq!(uart.irq_count, 2);
    assert!(b.woke);
    uart.handle_interrupt(0x20);
    assert_eq!(uart.irq_count, 3);
    assert_eq!(uart.base, 0x1000);
}

#[test]
fn write_drains_buffer_in_order() {
    let mut uart = Pl011Uart::new(0x1000);
    let mut mock = Mock::new();
    let (_, waker) = counting_waker();
    let bytes = [1u8, 2, 3, 4, 5];
    let readings = [0, FR_BUSY, 0, FR_TXFF, 0, FR_BUSY | FR_TXFF, 0, 0, 0];
    let mut fut = uart.write_byte(&bytes);
    let mut result = None;
    for &f in readings.iter() {
        match fut.poll(f, &waker) {
            WriteStep::Write(w) => mock.write(w),
            WriteStep::Ready(n) => {
                result = Some(n);
                break;
            }
            WriteStep::Pending => assert!(tx_full(f)),
            WriteStep::Busy => assert!(tx_busy(f)),
        }
    }
    assert_eq!(result, Some(5));
    assert_eq!(mock.data(), bytes.to_vec());
    assert!(fut.is_complete());
    assert_eq!(fut.poll(0, &waker), WriteStep::Ready(5));
}

#[test]
fn write_of_empty_buffer_completes_at_once() {
    let mut uart = Pl011Uart::new(0x1000);
    let (_, waker) = counting_waker();
    let mut fut = uart.write_byte(&[]);
    assert!(fut.is_complete());
    assert_eq!(fut.poll(FR_TXFF, &waker), WriteStep::Ready(0));
}

#[test]
fn write_suspends_then_resumes_after_interrupt() {
    let mut uart = Pl011Uart::new(0x1000);
    let mut mock = Mock::new();
    let (count, waker) = counting_waker();
    let bytes = [0x41u8, 0x42];
    let mut fut = uart.write_byte(&bytes);
    mock.flags = FR_TXFF;
    assert_eq!(fut.poll(mock.read_flags(), &waker), WriteStep::Pending);
    assert_eq!(count.0.load(Ordering::SeqCst), 0);
    mock.flags = 0;
    mock.masked = INT_RX;
    mock.raw = INT_RX;
    let out = fut.uart().handle_interrupt(mock.masked);
    assert!(out.woke);
    mock.write(out.clear);
    assert_eq!(count.0.load(Ordering::SeqCst), 1);
    assert_eq!(mock.masked, 0);
    let mut result = None;
    for _ in 0..10 {
        match fut.poll(mock.read_flags(), &waker) {
            WriteStep::Write(w) => mock.write(w),
            WriteStep::Ready(n) => {
                result = Some(n);
                break;
            }
            other => panic!("unexpected step {:?}", other),
        }
    }
    assert_eq!(result, Some(2));
    assert_eq!(mock.data(), vec![0x41, 0x42]);
    assert_eq!(fut.uart().irq_count, 1);
}

#[test]
fn interrupt_without_registration_wakes_nobody() {
    let mut uart = Pl011Uart::new(0x1000);
    let (count, waker) = counting_waker();
    {
        let mut fut = uart.write_byte(&[7]);
        assert_eq!(fut.poll(0, &waker), WriteStep::Write(RegWrite { offset: UART_DR, value: 7 }));
        assert_eq!(fut.poll(0, &waker), WriteStep::Ready(1));
    }
    let out = uart.handle_interrupt(INT_RX);
    assert!(out.woke);
    assert_eq!(count.0.load(Ordering::SeqCst), 0);
}

#[test]
fn registration_is_taken_by_one_wake() {
    let mut uart = Pl011Uart::new(0x1000);
    let (count, waker) = counting_waker();
    {
        let mut fut = uart.write_byte(&[7]);
        assert_eq!(fut.poll(FR_TXFF, &waker), WriteStep::Pending);
    }
    uart.handle_interrupt(0);
    assert_eq!(count.0.load(Ordering::SeqCst), 0);
    uart.handle_interrupt(INT_RX);
    assert_eq!(count.0.load(Ordering::SeqCst), 1);
    uart.handle_interrupt(INT_RX);
    assert_eq!(count.0.load(Ordering::SeqCst), 1);
}

#[test]
fn dropped_write_leaves_sent_bytes_only() {
    let mut uart = Pl011Uart::new(0x1000);
    let mut mock = Mock::new();
    let (_, waker) = counting_waker();
    let bytes = [1u8, 2, 3];
    {
        let mut fut = uart.write_byte(&bytes);
        for _ in 0..2 {
            match fut.poll(mock.read_flags(), &waker) {
                WriteStep::Write(w) => mock.write(w),
                other => panic!("unexpected step {:?}", other),
            }
        }
        mock.flags = FR_TXFF;
        assert_eq!(fut.poll(mock.read_flags(), &waker), WriteStep::Pending);
        assert!(!fut.is_complete());
    }
    assert_eq!(mock.data(), vec![1, 2]);
    assert!(mock.data().len() < bytes.len());
    assert_eq!(uart.irq_count, 0);
}

#[test]
fn drive_writes_each_byte_once_in_order() {
    let mut uart = Pl011Uart::new(0x1000);
    let (count, waker) = counting_waker();
    let bytes = [0x41u8, 0x42, 0x43];
    let mut fut = uart.write_byte(&bytes);
    let steps = fut.drive(&[FR_TXFF, 0, FR_BUSY, 0, 0, 0, 0], &waker);
    assert_eq!(
        steps,
        vec![
            WriteStep::Pending,
            WriteStep::Write(RegWrite { offset: UART_DR, value: 0x41 }),
            WriteStep::Busy,
            WriteStep::Write(RegWrite { offset: UART_DR, value: 0x42 }),
            WriteStep::Write(RegWrite { offset: UART_DR, value: 0x43 }),
            WriteStep::Ready(3),
            WriteStep::Ready(3),
        ]
    );
    assert_eq!(count.0.load(Ordering::SeqCst), 0);
    fut.uart().handle_interrupt(INT_RX);
    assert_eq!(count.0.load(Ordering::SeqCst), 1);
}

#[test]
fn drive_stopped_at_full_fifo_sent_a_prefix() {
    let mut uart = Pl011Uart::new(0x1000);
    let (_, waker) = counting_waker();
    let bytes = [9u8, 8, 7, 6];
    let mut fut = uart.write_byte(&bytes);
    let steps = fut.drive(&[0, 0, FR_TXFF], &waker);
    let written: Vec<u32> = steps
        .iter()
        .filter_map(|s| match s {
            WriteStep::Write(w) => Some(w.value),
            _ => None,
        })
        .collect();
    assert_eq!(written, vec![9, 8]);
    assert_eq!(steps[2], WriteStep::Pending);
    let more = fut.drive(&[0, 0, 0], &waker);
    assert_eq!(
        more,
        vec![
            WriteStep::Write(RegWrite { offset: UART_DR, value: 7 }),
            WriteStep::Write(RegWrite { offset: UART_DR, value: 6 }),
            WriteStep::Ready(4),
        ]
    );
}
