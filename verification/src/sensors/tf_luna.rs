//! Benewake TF-Luna short-range LiDAR on a UART at 115 200 baud. It
//! streams 9-byte frames:
//! `0x59 0x59 DIST_L DIST_H STR_L STR_H TEMP_L TEMP_H CHECK`, distance in
//! cm, `CHECK` = low byte of the sum of the first eight bytes.

use vstd::prelude::*;

verus! {

/// Frame header byte.
pub const TF_LUNA_HEADER: u8 = 0x59;

/// Read attempts allowed to find the header.
pub const HEADER_ATTEMPTS: u16 = 2000;

/// Read attempts allowed for each payload byte.
pub const BYTE_ATTEMPTS: u16 = 1000;

/// The serial receiver, as the board provides it.
pub trait ByteSource {
    /// A received byte, or `None` when none is waiting.
    fn read_byte(&mut self) -> Option<u8>;
}

/// Sum of the bytes of `s`.
pub open spec fn sum_bytes(s: Seq<u8>) -> int
    decreases s.len(),
{
    if s.len() == 0 {
        0
    } else {
        sum_bytes(s.drop_last()) + s.last()
    }
}

/// The seven bytes after the header pass the checksum: the low byte of
/// the two header bytes plus the next six equals the last one.
pub open spec fn payload_ok(d: Seq<u8>) -> bool {
    (2 * TF_LUNA_HEADER + sum_bytes(d.take(6))) % 256 == d[6]
}

/// Distance in mm of a payload: the little-endian cm field times 10, kept
/// to 16 bits.
pub open spec fn payload_mm(d: Seq<u8>) -> u16 {
    ((d[1] * 256 + d[0]) * 10 % 65536) as u16
}

/// Reading of a payload: its distance when the checksum holds.
pub open spec fn payload_reading(d: Seq<u8>) -> Option<u16> {
    if payload_ok(d) {
        Some(payload_mm(d))
    } else {
        None
    }
}

/// Checks the checksum of the seven bytes after the header and decodes
/// the distance in mm.
pub fn decode_payload(data: &[u8; 7]) -> (r: Option<u16>)
    ensures
        r == payload_reading(data@),
{
    let mut sum: u16 = 0x59 + 0x59;
    let mut i: usize = 0;
    while i < 6
        invariant
            i <= 6,
            data@.len() == 7,
            sum as int == 2 * TF_LUNA_HEADER + sum_bytes(data@.take(i as int)),
            sum_bytes(data@.take(i as int)) <= 255 * i,
        decreases 6 - i,
    {
        assert(data@.take(i + 1).drop_last() =~= data@.take(i as int));
        sum = sum + data[i] as u16;
        i = i + 1;
    }
    let check = (sum & 0xFFu16) as u8;
    assert(check as int == sum % 256) by (bit_vector)
        requires
            check == (sum & 0xFFu16) as u8,
    ;
    if check != data[6] {
        return None;
    }
    let lo = data[0];
    let hi = data[1];
    let dist_cm = ((hi as u16) << 8u16) | lo as u16;
    assert(dist_cm as int == hi * 256 + lo) by (bit_vector)
        requires
            dist_cm == ((hi as u16) << 8u16) | lo as u16,
    ;
    let mm = dist_cm.wrapping_mul(10);
    Some(mm)
}

/// Progress of `read_packet` over its read attempts.
pub ghost enum LunaScan {
    /// Looking for the header: header bytes seen in a row, attempts made.
    Header(nat, nat),
    /// Reading the payload: bytes received so far, and attempts that
    /// brought no byte since the last one.
    Payload(Seq<u8>, nat),
    /// The read is over, with this result.
    Done(Option<u16>),
    /// An attempt after the read was over.
    Overrun,
}

/// One read attempt (`None` when no byte was waiting) applied to the scan.
/// The header search gives up when its attempt budget is exceeded, even on
/// the attempt that completes the header; each payload byte has a budget of
/// its own.
pub open spec fn scan_step(s: LunaScan, a: Option<u8>) -> LunaScan {
    match s {
        LunaScan::Header(count, tries) => {
            let c: nat = match a {
                Some(b) => if b == TF_LUNA_HEADER {
                    count + 1
                } else {
                    0
                },
                None => count,
            };
            if tries + 1 > HEADER_ATTEMPTS {
                LunaScan::Done(None)
            } else if c >= 2 {
                LunaScan::Payload(Seq::empty(), 0)
            } else {
                LunaScan::Header(c, tries + 1)
            }
        },
        LunaScan::Payload(got, tries) => match a {
            Some(b) => if got.len() + 1 == 7 {
                LunaScan::Done(payload_reading(got.push(b)))
            } else {
                LunaScan::Payload(got.push(b), 0)
            },
            None => if tries + 1 > BYTE_ATTEMPTS {
                LunaScan::Done(None)
            } else {
                LunaScan::Payload(got, tries + 1)
            },
        },
        LunaScan::Done(_) => LunaScan::Overrun,
        LunaScan::Overrun => LunaScan::Overrun,
    }
}

/// The scan after the read attempts `attempts`, from the start of a read.
pub open spec fn luna_scan(attempts: Seq<Option<u8>>) -> LunaScan
    decreases attempts.len(),
{
    if attempts.len() == 0 {
        LunaScan::Header(0, 0)
    } else {
        scan_step(luna_scan(attempts.drop_last()), attempts.last())
    }
}

/// Short-range LiDAR on a serial port.
pub struct TFLuna<S> {
    serial: S,
    attempts: Ghost<Seq<Option<u8>>>,
}

impl<S: ByteSource> TFLuna<S> {
    /// Every read attempt made on the port so far, with the byte it
    /// brought (`None` when none was waiting).
    pub closed spec fn attempts(&self) -> Seq<Option<u8>> {
        self.attempts@
    }

    /// A sensor on the given serial port.
    pub fn new(serial: S) -> (s: Self)
        ensures
            s.attempts() == Seq::<Option<u8>>::empty(),
    {
        TFLuna { serial, attempts: Ghost(Seq::empty()) }
    }

    /// Waits for the next frame: up to `HEADER_ATTEMPTS` reads to see two
    /// header bytes in a row, then up to `BYTE_ATTEMPTS` reads for each of
    /// the seven bytes after them. `None` on a timeout or a bad checksum,
    /// else the distance in mm of the frame just read. The read attempts
    /// made are exactly those of one scan, which ends with the result.
    pub fn read_packet(&mut self) -> (r: Option<u16>)
        ensures
            old(self).attempts().is_prefix_of(final(self).attempts()),
            luna_scan(final(self).attempts().skip(old(self).attempts().len() as int))
                == LunaScan::Done(r),
    {
        let ghost start = self.attempts();
        let mut header_count: u8 = 0;
        let mut timeout: u16 = 0;
        while header_count < 2
            invariant
                header_count <= 2,
                timeout <= HEADER_ATTEMPTS,
                start == old(self).attempts(),
                start.is_prefix_of(self.attempts()),
                luna_scan(self.attempts().skip(start.len() as int)) == (if header_count < 2 {
                    LunaScan::Header(header_count as nat, timeout as nat)
                } else {
                    LunaScan::Payload(Seq::empty(), 0)
                }),
            decreases HEADER_ATTEMPTS - timeout,
        {
            let a = self.serial.read_byte();
            proof {
                let before = self.attempts@;
                self.attempts@ = self.attempts@.push(a);
                let ext = self.attempts().skip(start.len() as int);
                assert(ext.drop_last() =~= before.skip(start.len() as int));
            }
            match a {
                Some(byte) => {
                    if byte == TF_LUNA_HEADER {
                        header_count = header_count + 1;
                    } else {
                        header_count = 0;
                    }
                },
                None => {},
            }
            timeout = timeout + 1;
            if timeout > HEADER_ATTEMPTS {
                return None;
            }
        }
        let mut data = [0u8; 7];
        assert(data@.take(0) =~= Seq::<u8>::empty());
        let mut i: usize = 0;
        while i < 7
            invariant
                i <= 7,
                data@.len() == 7,
                start == old(self).attempts(),
                start.is_prefix_of(self.attempts()),
                luna_scan(self.attempts().skip(start.len() as int)) == (if i < 7 {
                    LunaScan::Payload(data@.take(i as int), 0)
                } else {
                    LunaScan::Done(payload_reading(data@))
                }),
            decreases 7 - i,
        {
            let mut sub_timeout: u16 = 0;
            loop
                invariant_except_break
                    luna_scan(self.attempts().skip(start.len() as int)) == LunaScan::Payload(
                        data@.take(i as int),
                        sub_timeout as nat,
                    ),
                invariant
                    i < 7,
                    data@.len() == 7,
                    sub_timeout <= BYTE_ATTEMPTS,
                    start == old(self).attempts(),
                    start.is_prefix_of(self.attempts()),
                ensures
                    data@.len() == 7,
                    luna_scan(self.attempts().skip(start.len() as int)) == (if i + 1 < 7 {
                        LunaScan::Payload(data@.take(i + 1), 0)
                    } else {
                        LunaScan::Done(payload_reading(data@))
                    }),
                decreases BYTE_ATTEMPTS - sub_timeout,
            {
                let a = self.serial.read_byte();
                proof {
                    let before = self.attempts@;
                    self.attempts@ = self.attempts@.push(a);
                    let ext = self.attempts().skip(start.len() as int);
                    assert(ext.drop_last() =~= before.skip(start.len() as int));
                }
                match a {
                    Some(byte) => {
                        let ghost prev = data@;
                        data[i] = byte;
                        proof {
                            assert(data@.take(i + 1) =~= prev.take(i as int).push(byte));
                            if i + 1 == 7 {
                                assert(data@.take(7) =~= data@);
                            }
                        }
                        break;
                    },
                    None => {},
                }
                sub_timeout = sub_timeout + 1;
                if sub_timeout > BYTE_ATTEMPTS {
                    return None;
                }
            }
            i = i + 1;
        }
        decode_payload(&data)
    }
}

} // verus!
