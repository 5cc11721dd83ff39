//! Receive ring buffer between the USART receive interrupt (producer) and
//! the main loop (consumer), so that bytes arriving while the loop is busy
//! are not lost.

use vstd::prelude::*;

verus! {

/// Capacity of the ring, in bytes.
pub const RX_BUF_SIZE: usize = 64;

/// Bytes that can wait in the buffer at once.
pub const RX_CAPACITY: usize = 64;

/// Ring buffer of received bytes.
pub struct RxRingBuffer {
    buf: [u8; 64],
    /// Index of the oldest waiting byte (consumer side).
    tail: u8,
    /// Number of waiting bytes.
    len: u8,
}

impl RxRingBuffer {
    #[verifier::type_invariant]
    spec fn indices_in_range(self) -> bool {
        self.tail < 64 && self.len <= 64
    }
}

impl View for RxRingBuffer {
    /// The waiting bytes, oldest first.
    type V = Seq<u8>;

    closed spec fn view(&self) -> Seq<u8> {
        Seq::new(self.len as nat, |k: int| self.buf@[(self.tail as int + k) % 64])
    }
}

/// The waiting bytes after a push: the byte joins the end of the queue,
/// unless 64 bytes already wait, in which case it is dropped.
pub open spec fn queue_after_push(q: Seq<u8>, byte: u8) -> Seq<u8> {
    if q.len() < RX_CAPACITY {
        q.push(byte)
    } else {
        q
    }
}

impl RxRingBuffer {
    /// An empty buffer.
    pub fn new() -> (r: Self)
        ensures
            r@ == Seq::<u8>::empty(),
    {
        let r = RxRingBuffer { buf: [0u8; 64], tail: 0, len: 0 };
        assert(r@ =~= Seq::<u8>::empty());
        r
    }

    /// Stores a received byte (producer side); a byte that arrives while
    /// 64 bytes wait is dropped.
    pub fn push(&mut self, byte: u8)
        ensures
            final(self)@ == queue_after_push(old(self)@, byte),
            final(self)@.len() <= RX_CAPACITY,
    {
        proof {
            use_type_invariant(&*self);
        }
        if (self.len as usize) < RX_BUF_SIZE {
            let head = (self.tail as usize + self.len as usize) % RX_BUF_SIZE;
            self.buf[head] = byte;
            self.len = self.len + 1;
            proof {
                assert forall|k: int| 0 <= k < old(self).len implies #[trigger] self.buf@[(
                self.tail as int + k) % 64] == old(self).buf@[(old(self).tail as int + k) % 64] by {
                    assert((old(self).tail as int + k) % 64 != head as int);
                }
                assert(self@ =~= old(self)@.push(byte));
            }
        }
    }

    /// Takes the oldest waiting byte (consumer side), or `None` if empty.
    pub fn pop(&mut self) -> (r: Option<u8>)
        ensures
            old(self)@.len() == 0 ==> r is None && final(self)@ == old(self)@,
            old(self)@.len() > 0 ==> r == Some(old(self)@[0]) && final(self)@
                == old(self)@.drop_first(),
    {
        proof {
            use_type_invariant(&*self);
        }
        if self.len == 0 {
            return None;
        }
        let tail = self.tail as usize;
        let byte = self.buf[tail];
        self.tail = ((tail + 1) % RX_BUF_SIZE) as u8;
        self.len = self.len - 1;
        proof {
            assert forall|k: int| 0 <= k < self.len implies #[trigger] self.buf@[(self.tail as int
                + k) % 64] == old(self).buf@[(old(self).tail as int + (k + 1)) % 64] by {
                assert((self.tail as int + k) % 64 == (old(self).tail as int + (k + 1)) % 64);
            }
            assert(self@ =~= old(self)@.drop_first());
        }
        Some(byte)
    }
}

/// Order law: a pushed byte is popped after exactly the bytes that were
/// waiting before it, and they come out unchanged and in their order.
pub proof fn law_fifo_order(q: Seq<u8>, byte: u8)
    requires
        q.len() < RX_CAPACITY,
    ensures
        queue_after_push(q, byte).len() == q.len() + 1,
        queue_after_push(q, byte).take(q.len() as int) == q,
        queue_after_push(q, byte)[q.len() as int] == byte,
{
    assert(queue_after_push(q, byte).take(q.len() as int) =~= q);
}

} // verus!
