//! Serial command interface to the high-level controller: assembles the
//! bytes received into command lines and sends response frames.

use vstd::prelude::*;

pub mod rx_buffer;

pub use crate::command_interface::rx_buffer::RxRingBuffer;

verus! {

/// Size of the command buffer; a line keeps at most `BUFFER_SIZE - 1` bytes.
pub const BUFFER_SIZE: usize = 32;

/// One received byte through the line assembler: `\n` or `\r` completes a
/// non-empty line (and is ignored on an empty one); other bytes are kept
/// while the line is shorter than `BUFFER_SIZE - 1`, and dropped beyond.
pub open spec fn line_step(line: Seq<u8>, b: u8) -> (Seq<u8>, bool) {
    if b == 10 || b == 13 {
        (line, line.len() > 0)
    } else if line.len() < BUFFER_SIZE - 1 {
        (line.push(b), false)
    } else {
        (line, false)
    }
}

/// Feeds `bytes` to the assembler until a line completes: the line, how many
/// bytes were taken, and whether a line completed.
pub open spec fn scan_line(line: Seq<u8>, bytes: Seq<u8>) -> (Seq<u8>, nat, bool)
    decreases bytes.len(),
{
    if bytes.len() == 0 {
        (line, 0, false)
    } else {
        let (next, done) = line_step(line, bytes[0]);
        if done {
            (next, 1, true)
        } else {
            let (l, n, d) = scan_line(next, bytes.drop_first());
            (l, n + 1, d)
        }
    }
}

/// Line assembler of the command interface: the bytes of the command being
/// received. The serial port itself is driven by the board code, which hands
/// every received byte to `accept_byte` or buffers them in an `RxRingBuffer`.
pub struct CommandInterface {
    buffer: [u8; 32],
    index: usize,
}

impl CommandInterface {
    #[verifier::type_invariant]
    spec fn index_in_range(self) -> bool {
        self.index < BUFFER_SIZE
    }

    /// The line assembled so far.
    pub closed spec fn line(&self) -> Seq<u8> {
        self.buffer@.take(self.index as int)
    }

    /// An empty line.
    pub fn new() -> (r: Self)
        ensures
            r.line() == Seq::<u8>::empty(),
    {
        let r = CommandInterface { buffer: [0u8; 32], index: 0 };
        assert(r.buffer@.take(0) =~= Seq::<u8>::empty());
        r
    }

    /// One received byte; `true` when it completes a line.
    pub fn accept_byte(&mut self, byte: u8) -> (done: bool)
        ensures
            (final(self).line(), done) == line_step(old(self).line(), byte),
            final(self).line().len() < BUFFER_SIZE,
    {
        proof {
            use_type_invariant(&*self);
        }
        if byte == 10u8 || byte == 13u8 {
            return self.index > 0;
        }
        if self.index < BUFFER_SIZE - 1 {
            let ghost before = self.buffer@;
            self.buffer[self.index] = byte;
            self.index = self.index + 1;
            assert(self.buffer@.take(self.index as int) =~= before.take(
                (self.index - 1) as int,
            ).push(byte));
        }
        proof {
            use_type_invariant(&*self);
        }
        false
    }

    /// Drains the ring buffer filled by the receive interrupt until a line
    /// completes; `true` when a complete line is ready for `get_command`.
    /// Bytes after the terminator stay in the ring buffer.
    pub fn poll_from_ring(&mut self, rx: &mut RxRingBuffer) -> (done: bool)
        ensures
            ({
                let (line, n, d) = scan_line(old(self).line(), old(rx)@);
                &&& final(self).line() == line
                &&& final(rx)@ == old(rx)@.skip(n as int)
                &&& done == d
            }),
    {
        let ghost queue = rx@;
        let ghost start = self.line();
        let ghost mut taken: nat = 0;
        loop
            invariant
                start == old(self).line(),
                queue == old(rx)@,
                taken <= queue.len(),
                rx@ == queue.skip(taken as int),
                ({
                    let (line, n, d) = scan_line(start, queue);
                    let (rest_line, rest_n, rest_d) = scan_line(self.line(), rx@);
                    line == rest_line && n == taken + rest_n && d == rest_d
                }),
            decreases rx@.len(),
        {
            let ghost waiting = rx@;
            match rx.pop() {
                None => {
                    assert(scan_line(self.line(), waiting) == (self.line(), 0nat, false));
                    assert(queue.skip(taken as int) =~= rx@);
                    return false;
                },
                Some(byte) => {
                    let ghost line_before = self.line();
                    let done = self.accept_byte(byte);
                    proof {
                        assert(waiting[0] == byte);
                        assert(waiting.drop_first() =~= queue.skip(taken + 1int));
                        assert(rx@ == waiting.drop_first());
                        let (l1, n1, d1) = scan_line(self.line(), rx@);
                        assert(scan_line(line_before, waiting) == (if done {
                            (self.line(), 1nat, true)
                        } else {
                            (l1, n1 + 1, d1)
                        }));
                        taken = taken + 1;
                    }
                    if done {
                        return true;
                    }
                },
            }
        }
    }

    /// The completed line; the assembler starts a new line.
    pub fn get_command(&mut self) -> (cmd: &[u8])
        ensures
            cmd@ == old(self).line(),
            final(self).line() == Seq::<u8>::empty(),
    {
        proof {
            use_type_invariant(&*self);
        }
        let len = self.index;
        self.index = 0;
        assert(self.buffer@.take(0) =~= Seq::<u8>::empty());
        let cmd: &[u8] = &self.buffer[0..len];
        assert(cmd@ =~= old(self).line());
        cmd
    }
}

} // verus!
