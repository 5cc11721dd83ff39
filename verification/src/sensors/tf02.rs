//! Benewake TF02 LiDAR: parser of the 9-byte frames it streams over UART at
//! 100 Hz, fed one byte at a time.
//!
//! Frame: `0x59 0x59 DIST_L DIST_H STR_L STR_H SIG TIME CHECK`, little
//! endian, distance in cm, `CHECK` = low byte of the sum of the first eight
//! bytes; a distance of 2200 cm or more flags an out-of-range reading.

use vstd::prelude::*;

verus! {

/// Frame header byte.
pub const TF02_HEADER: u8 = 0x59;

/// Distances (cm) from this value on are out of range.
pub const TF02_OUT_OF_RANGE_CM: u16 = 2200;

/// Abstract state of the parser.
pub ghost struct Tf02View {
    pub buf: Seq<u8>,
    pub idx: u8,
    pub last_dist_mm: u16,
    pub last_strength: u16,
    pub last_sig: u8,
}

/// Frame parser with the last valid reading.
pub struct TF02 {
    buf: [u8; 9],
    idx: u8,
    /// Last distance in mm (0 before the first valid frame).
    pub last_dist_mm: u16,
    /// Signal strength of the last valid frame.
    pub last_strength: u16,
    /// SIG byte of the last valid frame.
    pub last_sig: u8,
}

impl View for TF02 {
    type V = Tf02View;

    closed spec fn view(&self) -> Tf02View {
        Tf02View {
            buf: self.buf@,
            idx: self.idx,
            last_dist_mm: self.last_dist_mm,
            last_strength: self.last_strength,
            last_sig: self.last_sig,
        }
    }
}

/// Low byte of the sum of the first eight bytes.
pub open spec fn tf02_checksum(b: Seq<u8>) -> u8 {
    ((b[0] + b[1] + b[2] + b[3] + b[4] + b[5] + b[6] + b[7]) % 256) as u8
}

/// Distance field in cm.
pub open spec fn tf02_dist_cm(b: Seq<u8>) -> u16 {
    (b[3] * 256 + b[2]) as u16
}

/// Strength field.
pub open spec fn tf02_strength(b: Seq<u8>) -> u16 {
    (b[5] * 256 + b[4]) as u16
}

/// One byte through the parser: the next state and whether a complete,
/// valid frame has just been read.
pub open spec fn feed_step(s: Tf02View, byte: u8) -> (Tf02View, bool) {
    if s.idx == 0 {
        if byte == TF02_HEADER {
            (Tf02View { buf: s.buf.update(0, byte), idx: 1, ..s }, false)
        } else {
            (s, false)
        }
    } else if s.idx == 1 {
        if byte == TF02_HEADER {
            (Tf02View { buf: s.buf.update(1, byte), idx: 2, ..s }, false)
        } else {
            (Tf02View { idx: 0, ..s }, false)
        }
    } else if 2 <= s.idx <= 7 {
        (Tf02View { buf: s.buf.update(s.idx as int, byte), idx: (s.idx + 1) as u8, ..s }, false)
    } else if s.idx == 8 {
        let idle = Tf02View { idx: 0, ..s };
        if byte != tf02_checksum(s.buf) || tf02_dist_cm(s.buf) >= TF02_OUT_OF_RANGE_CM {
            (idle, false)
        } else {
            (
                Tf02View {
                    last_dist_mm: (tf02_dist_cm(s.buf) * 10) as u16,
                    last_strength: tf02_strength(s.buf),
                    last_sig: s.buf[6],
                    ..idle
                },
                true,
            )
        }
    } else {
        (Tf02View { idx: 0, ..s }, false)
    }
}

impl TF02 {
    /// Last distance in mm, as in the view.
    pub fn last_dist_mm(&self) -> (d: u16)
        ensures
            d == self@.last_dist_mm,
    {
        self.last_dist_mm
    }

    /// Signal strength of the last valid frame, as in the view.
    pub fn last_strength(&self) -> (v: u16)
        ensures
            v == self@.last_strength,
    {
        self.last_strength
    }

    /// SIG byte of the last valid frame, as in the view.
    pub fn last_sig(&self) -> (v: u8)
        ensures
            v == self@.last_sig,
    {
        self.last_sig
    }

    /// An idle parser with no reading yet.
    pub fn new() -> (r: Self)
        ensures
            r@.idx == 0,
            r@.buf == Seq::new(9, |i: int| 0u8),
            r@.last_dist_mm == 0,
            r@.last_strength == 0,
            r@.last_sig == 0,
    {
        let r = TF02 { buf: [0u8; 9], idx: 0, last_dist_mm: 0, last_strength: 0, last_sig: 0 };
        assert(r.buf@ =~= Seq::new(9, |i: int| 0u8));
        r
    }

    /// Feeds one received byte; returns `true` when it completes a frame
    /// whose checksum matches and whose distance is in range, in which case
    /// the `last_*` readings are updated.
    pub fn feed(&mut self, byte: u8) -> (done: bool)
        ensures
            (final(self)@, done) == feed_step(old(self)@, byte),
    {
        if self.idx == 0 {
            if byte == TF02_HEADER {
                self.buf[0] = byte;
                self.idx = 1;
            }
            false
        } else if self.idx == 1 {
            if byte == TF02_HEADER {
                self.buf[1] = byte;
                self.idx = 2;
            } else {
                self.idx = 0;
            }
            false
        } else if self.idx >= 2 && self.idx <= 7 {
            self.buf[self.idx as usize] = byte;
            self.idx = self.idx + 1;
            false
        } else if self.idx == 8 {
            self.idx = 0;
            let sum: u16 = self.buf[0] as u16 + self.buf[1] as u16 + self.buf[2] as u16
                + self.buf[3] as u16 + self.buf[4] as u16 + self.buf[5] as u16
                + self.buf[6] as u16 + self.buf[7] as u16;
            let check: u8 = (sum % 256) as u8;
            if byte != check {
                return false;
            }
            let dist_cm: u16 = self.buf[3] as u16 * 256 + self.buf[2] as u16;
            if dist_cm >= TF02_OUT_OF_RANGE_CM {
                return false;
            }
            self.last_dist_mm = dist_cm * 10;
            self.last_strength = self.buf[5] as u16 * 256 + self.buf[4] as u16;
            self.last_sig = self.buf[6];
            true
        } else {
            self.idx = 0;
            false
        }
    }

    /// Drops any partial frame (e.g. after the sensor restarts).
    pub fn reset(&mut self)
        ensures
            final(self)@ == (Tf02View {
                idx: 0,
                buf: Seq::new(9, |i: int| 0u8),
                ..old(self)@
            }),
    {
        self.idx = 0;
        self.buf = [0u8; 9];
        assert(self.buf@ =~= Seq::new(9, |i: int| 0u8));
    }
}

/// Frame law: from the idle state, the nine bytes of a frame that starts
/// with the double header give `false` for the first eight bytes; the ninth
/// gives `true` exactly when the checksum matches and the distance is in
/// range, and then the reading is the frame's distance (×10, in mm),
/// strength and SIG. A rejected frame leaves the previous reading in place.
/// Either way the parser is idle again afterwards.
pub proof fn law_frame(s0: Tf02View, f: Seq<u8>)
    requires
        s0.idx == 0,
        s0.buf.len() == 9,
        f.len() == 9,
        f[0] == TF02_HEADER,
        f[1] == TF02_HEADER,
    ensures
        ({
            let (s1, r1) = feed_step(s0, f[0]);
            let (s2, r2) = feed_step(s1, f[1]);
            let (s3, r3) = feed_step(s2, f[2]);
            let (s4, r4) = feed_step(s3, f[3]);
            let (s5, r5) = feed_step(s4, f[4]);
            let (s6, r6) = feed_step(s5, f[5]);
            let (s7, r7) = feed_step(s6, f[6]);
            let (s8, r8) = feed_step(s7, f[7]);
            let (s9, r9) = feed_step(s8, f[8]);
            let ok = f[8] == tf02_checksum(f) && tf02_dist_cm(f) < TF02_OUT_OF_RANGE_CM;
            &&& !r1 && !r2 && !r3 && !r4 && !r5 && !r6 && !r7 && !r8
            &&& r9 == ok
            &&& s9.idx == 0
            &&& ok ==> s9.last_dist_mm == tf02_dist_cm(f) * 10 && s9.last_strength
                == tf02_strength(f) && s9.last_sig == f[6]
            &&& !ok ==> s9.last_dist_mm == s0.last_dist_mm && s9.last_strength
                == s0.last_strength && s9.last_sig == s0.last_sig
        }),
{
    let (s1, r1) = feed_step(s0, f[0]);
    let (s2, r2) = feed_step(s1, f[1]);
    let (s3, r3) = feed_step(s2, f[2]);
    let (s4, r4) = feed_step(s3, f[3]);
    let (s5, r5) = feed_step(s4, f[4]);
    let (s6, r6) = feed_step(s5, f[5]);
    let (s7, r7) = feed_step(s6, f[6]);
    let (s8, r8) = feed_step(s7, f[7]);
    assert(s8.idx == 8);
    assert(s8.buf.take(8) =~= f.take(8));
    assert(tf02_checksum(s8.buf) == tf02_checksum(f)) by {
        assert(forall|i: int| 0 <= i < 8 ==> s8.buf[i] == f[i]) by {
            assert forall|i: int| 0 <= i < 8 implies s8.buf[i] == f[i] by {
                assert(s8.buf.take(8)[i] == f.take(8)[i]);
            }
        }
    }
    assert(s8.buf[2] == f[2] && s8.buf[3] == f[3] && s8.buf[4] == f[4] && s8.buf[5] == f[5]
        && s8.buf[6] == f[6]) by {
        assert(s8.buf.take(8)[2] == f.take(8)[2]);
        assert(s8.buf.take(8)[3] == f.take(8)[3]);
        assert(s8.buf.take(8)[4] == f.take(8)[4]);
        assert(s8.buf.take(8)[5] == f.take(8)[5]);
        assert(s8.buf.take(8)[6] == f.take(8)[6]);
    }
}


/// Distance law: the DIST field of a frame is little-endian, DIST_L in
/// byte 2 and DIST_H in byte 3; a frame accepted by the parser sets the
/// last distance to ten times that many centimetres, in millimetres.
pub proof fn law_distance_little_endian(s0: Tf02View, f: Seq<u8>)
    requires
        s0.idx == 0,
        s0.buf.len() == 9,
        f.len() == 9,
        f[0] == TF02_HEADER,
        f[1] == TF02_HEADER,
    ensures
        tf02_dist_cm(f) as int == f[2] + 256 * f[3],
        ({
            let (s1, r1) = feed_step(s0, f[0]);
            let (s2, r2) = feed_step(s1, f[1]);
            let (s3, r3) = feed_step(s2, f[2]);
            let (s4, r4) = feed_step(s3, f[3]);
            let (s5, r5) = feed_step(s4, f[4]);
            let (s6, r6) = feed_step(s5, f[5]);
            let (s7, r7) = feed_step(s6, f[6]);
            let (s8, r8) = feed_step(s7, f[7]);
            let (s9, r9) = feed_step(s8, f[8]);
            r9 ==> s9.last_dist_mm as int == (f[2] + 256 * f[3]) * 10
        }),
{
    law_frame(s0, f);
}


/// Field law: STRENGTH is little-endian in bytes 4 and 5, and the checksum
/// is the low byte of the sum of the first eight bytes.
pub proof fn law_strength_and_checksum(f: Seq<u8>)
    requires
        f.len() == 9,
    ensures
        tf02_strength(f) as int == f[4] + 256 * f[5],
        tf02_checksum(f) as int == (f[0] + f[1] + f[2] + f[3] + f[4] + f[5] + f[6] + f[7]) % 256,
{
}

} // verus!
