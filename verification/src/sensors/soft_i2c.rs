//! Bit-banged I2C master on two open-drain lines (SDA on D42, SCL on D43).
//!
//! A line is driven low by making its pin an output at 0 and released by
//! making it an input; the external pull-ups (3.3 V) raise a released line.
//! The internal pull-ups stay off. Each half bit period is about 5 µs
//! (~100 kHz), and a slave may stretch the clock for up to
//! `I2C_STRETCH_MAX` half periods.
//!
//! The bus keeps, as ghost state, the transaction-level trace of what went
//! over the wire (`trace`), every operation of the master on the lines
//! (`line_ops`, the levels sampled included), and the SCL samples of the
//! clock-stretching waits. `lines_match` ties the two: each step of the
//! trace stands for exactly its own line operations, so a byte is only
//! acknowledged where SDA was read low on its ninth clock, and a step only
//! fails where a clock was held low past the limit or the ACK read high.

use vstd::prelude::*;

verus! {

/// Half periods to wait for a stretched clock (~2.5 ms).
pub const I2C_STRETCH_MAX: u16 = 500;

/// The two bus lines as the board wires them.
pub trait I2cLines {
    /// Drives SDA low.
    fn sda_low(&mut self);

    /// Releases SDA (the pull-up raises it unless a slave holds it low).
    fn sda_release(&mut self);

    /// Drives SCL low.
    fn scl_low(&mut self);

    /// Releases SCL.
    fn scl_release(&mut self);

    /// Level seen on SDA.
    fn sda_is_high(&mut self) -> bool;

    /// Level seen on SCL.
    fn scl_is_high(&mut self) -> bool;

    /// Waits half a bit period.
    fn half_period(&mut self);
}

/// One step of a bus transaction.
#[derive(Debug, Clone, Copy, PartialEq, Eq, Structural)]
pub enum BusEvent {
    /// START condition.
    Start,
    /// Repeated START.
    Restart,
    /// STOP condition.
    Stop,
    /// A byte sent by the master, and whether the slave acknowledged it.
    Sent { byte: u8, acked: bool },
    /// A byte received by the master, and whether the master acknowledged it.
    Received { byte: u8, acked: bool },
    /// The slave held the clock low past the stretch limit.
    Stalled,
}

/// The eight bits of `b`, most significant first.
pub open spec fn byte_bits(b: u8) -> Seq<bool> {
    Seq::new(8, |i: int| (b >> ((7 - i) as u8)) & 1 == 1)
}

/// Every byte of `bytes` sent and acknowledged.
pub open spec fn sent_acked(bytes: Seq<u8>) -> Seq<BusEvent> {
    Seq::new(bytes.len(), |i: int| BusEvent::Sent { byte: bytes[i], acked: true })
}

/// Every byte of `data` received; the master acknowledges all but the last.
pub open spec fn received(data: Seq<u8>) -> Seq<BusEvent> {
    Seq::new(
        data.len(),
        |i: int| BusEvent::Received { byte: data[i], acked: i < data.len() - 1 },
    )
}

/// `e` is how the step `expected` can fail: a stalled clock, or the same
/// byte left unacknowledged by the slave.
pub open spec fn fails(expected: BusEvent, e: BusEvent) -> bool {
    ||| e == BusEvent::Stalled
    ||| (expected matches BusEvent::Sent { byte, acked: true } && e == (BusEvent::Sent {
        byte,
        acked: false,
    }))
}

/// `ext` followed `ok` up to step `p`, failed at that step, and was closed
/// with a STOP.
pub open spec fn broken_at(ok: Seq<BusEvent>, p: int, ext: Seq<BusEvent>) -> bool {
    &&& 1 <= p < ok.len()
    &&& ext.len() == p + 2
    &&& ext.take(p) == ok.take(p)
    &&& fails(ok[p], ext[p])
    &&& ext[p + 1] == BusEvent::Stop
}

/// Address byte of a write to the 7-bit address `addr`.
pub open spec fn write_address(addr: u8) -> u8 {
    addr << 1u8
}

/// Address byte of a read from the 7-bit address `addr`.
pub open spec fn read_address(addr: u8) -> u8 {
    (addr << 1u8) | 1u8
}

/// A register write that succeeded, up to its STOP: START, then the
/// address, the register bytes and the data, each acknowledged.
pub open spec fn write_ok(addr: u8, regs: Seq<u8>, data: Seq<u8>) -> Seq<BusEvent> {
    seq![BusEvent::Start] + sent_acked(seq![write_address(addr)] + regs + data)
}

/// A read that succeeded, up to its STOP: the bytes of `head` written, a
/// repeated START, the read address `rd`, then `data` received.
pub open spec fn receive_ok(head: Seq<u8>, rd: u8, data: Seq<u8>) -> Seq<BusEvent> {
    seq![BusEvent::Start] + sent_acked(head) + seq![BusEvent::Restart] + sent_acked(seq![rd])
        + received(data)
}

/// Bytes received before a read with a header of `head_len` bytes broke
/// off at step `p`.
pub open spec fn taken_before(head_len: int, p: int) -> int {
    if p <= head_len + 3 {
        0
    } else {
        p - head_len - 3
    }
}

/// A register read that succeeded, up to its STOP: the register address
/// written, a repeated START, the read address, then `data` received.
pub open spec fn read_ok(addr: u8, regs: Seq<u8>, data: Seq<u8>) -> Seq<BusEvent> {
    receive_ok(seq![write_address(addr)] + regs, read_address(addr), data)
}

/// Bytes received before a register read of `regs` broke off at step `p`.
pub open spec fn received_before(regs: Seq<u8>, p: int) -> int {
    taken_before(regs.len() + 1int, p)
}

/// `ext` is one complete register write of `data` to `regs` on `addr`,
/// successful exactly when `ok`.
pub open spec fn write_tx(addr: u8, regs: Seq<u8>, data: Seq<u8>, ext: Seq<BusEvent>, ok: bool) -> bool {
    &&& ok ==> ext == write_ok(addr, regs, data).push(BusEvent::Stop)
    &&& !ok ==> exists|p: int| broken_at(write_ok(addr, regs, data), p, ext)
}

/// `ext` is one complete register read of `regs` on `addr`, successful
/// exactly when `ok`; `data` holds the bytes received, and on a failure
/// the entries after those received equal `rest`.
pub open spec fn read_tx(
    addr: u8,
    regs: Seq<u8>,
    data: Seq<u8>,
    rest: Seq<u8>,
    ext: Seq<BusEvent>,
    ok: bool,
) -> bool {
    &&& data.len() == rest.len()
    &&& ok ==> ext == read_ok(addr, regs, data).push(BusEvent::Stop)
    &&& !ok ==> exists|p: int|
        #![trigger broken_at(read_ok(addr, regs, data), p, ext)]
        broken_at(read_ok(addr, regs, data), p, ext) && data.skip(received_before(regs, p))
            == rest.skip(received_before(regs, p))
}

/// The steps that `later` added to `earlier`.
pub open spec fn added(earlier: Seq<BusEvent>, later: Seq<BusEvent>) -> Seq<BusEvent> {
    later.skip(earlier.len() as int)
}

/// `ext` writes `data` to the 8-bit register `reg` of `addr`, whether or
/// not the device acknowledged it.
pub open spec fn reg_write(addr: u8, reg: u8, data: Seq<u8>, ext: Seq<BusEvent>) -> bool {
    write_tx(addr, seq![reg], data, ext, true) || write_tx(addr, seq![reg], data, ext, false)
}

/// `n` zero bytes.
pub open spec fn zeros(n: nat) -> Seq<u8> {
    Seq::new(n, |i: int| 0u8)
}

/// `ext` reads the 8-bit register `reg` of `addr` into a zeroed buffer,
/// which ends up holding `data` (zero where nothing came back).
pub open spec fn reg_read(addr: u8, reg: u8, data: Seq<u8>, ext: Seq<BusEvent>) -> bool {
    ||| read_tx(addr, seq![reg], data, zeros(data.len()), ext, true)
    ||| read_tx(addr, seq![reg], data, zeros(data.len()), ext, false)
}

/// Big-endian 16-bit value of two bytes.
pub open spec fn be16(hi: u8, lo: u8) -> u16 {
    (hi * 256 + lo) as u16
}

/// The two bytes of a 16-bit register value, high byte first.
pub open spec fn word_bytes(val: u16) -> Seq<u8> {
    seq![(val >> 8u16) as u8, val as u8]
}

/// `ext` reads the 16-bit register `reg` and yields `v`.
pub open spec fn reads_word(addr: u8, reg: u8, v: u16, ext: Seq<BusEvent>) -> bool {
    exists|d: Seq<u8>| d.len() == 2 && reg_read(addr, reg, d, ext) && v == be16(d[0], d[1])
}

/// `ext` writes, one transaction each and in order, the single bytes
/// `pairs[i].1` to the registers `pairs[i].0` of `addr`.
pub open spec fn reg_writes(addr: u8, pairs: Seq<(u8, u8)>, ext: Seq<BusEvent>) -> bool
    decreases pairs.len(),
{
    if pairs.len() == 0 {
        ext.len() == 0
    } else {
        exists|k: int|
            #![trigger ext.take(k)]
            0 <= k <= ext.len() && reg_writes(addr, pairs.drop_last(), ext.take(k)) && reg_write(
                addr,
                pairs.last().0,
                seq![pairs.last().1],
                ext.skip(k),
            )
    }
}

/// One more register write extends a run of register writes.
pub proof fn lemma_reg_writes_push(
    addr: u8,
    pairs: Seq<(u8, u8)>,
    ext: Seq<BusEvent>,
    reg: u8,
    val: u8,
    more: Seq<BusEvent>,
)
    requires
        reg_writes(addr, pairs, ext),
        reg_write(addr, reg, seq![val], more),
    ensures
        reg_writes(addr, pairs.push((reg, val)), ext + more),
{
    let all = pairs.push((reg, val));
    assert(all.drop_last() =~= pairs);
    assert((ext + more).take(ext.len() as int) =~= ext);
    assert((ext + more).skip(ext.len() as int) =~= more);
}

/// A register access as a driver sees it.
pub ghost enum RegOp {
    /// `data` written from register `reg` on.
    Write(u8, Seq<u8>),
    /// `data` read from register `reg` on into a zeroed buffer (zero where
    /// nothing came back).
    Read(u8, Seq<u8>),
}

/// `ext` is the bus transaction of `op` on the device `addr`.
pub open spec fn op_tx(addr: u8, op: RegOp, ext: Seq<BusEvent>) -> bool {
    match op {
        RegOp::Write(reg, data) => reg_write(addr, reg, data, ext),
        RegOp::Read(reg, data) => reg_read(addr, reg, data, ext),
    }
}

/// `ext` is the bus transactions of `ops`, in order.
pub open spec fn reg_trace(addr: u8, ops: Seq<RegOp>, ext: Seq<BusEvent>) -> bool
    decreases ops.len(),
{
    if ops.len() == 0 {
        ext.len() == 0
    } else {
        exists|k: int|
            #![trigger ext.take(k)]
            0 <= k <= ext.len() && reg_trace(addr, ops.drop_last(), ext.take(k)) && op_tx(
                addr,
                ops.last(),
                ext.skip(k),
            )
    }
}

/// One more register access extends a run of them.
pub proof fn lemma_reg_trace_push(
    addr: u8,
    ops: Seq<RegOp>,
    ext: Seq<BusEvent>,
    op: RegOp,
    more: Seq<BusEvent>,
)
    requires
        reg_trace(addr, ops, ext),
        op_tx(addr, op, more),
    ensures
        reg_trace(addr, ops.push(op), ext + more),
{
    assert(ops.push(op).drop_last() =~= ops);
    assert((ext + more).take(ext.len() as int) =~= ext);
    assert((ext + more).skip(ext.len() as int) =~= more);
}

/// A run of register accesses over the bus trace `t0` extends to `t1`
/// when `t1` adds the transaction of one more access.
pub proof fn lemma_reg_trace_step(
    addr: u8,
    ops: Seq<RegOp>,
    t0: Seq<BusEvent>,
    t1: Seq<BusEvent>,
    op: RegOp,
)
    requires
        reg_trace(addr, ops, t0),
        t0.is_prefix_of(t1),
        op_tx(addr, op, added(t0, t1)),
    ensures
        reg_trace(addr, ops.push(op), t1),
{
    lemma_reg_trace_push(addr, ops, t0, op, added(t0, t1));
    assert(t0 + added(t0, t1) =~= t1);
}

/// The steps added over two consecutive stretches are those of the first
/// followed by those of the second.
pub proof fn lemma_added_chain(a: Seq<BusEvent>, b: Seq<BusEvent>, c: Seq<BusEvent>)
    requires
        a.is_prefix_of(b),
        b.is_prefix_of(c),
    ensures
        a.is_prefix_of(c),
        added(a, c) == added(a, b) + added(b, c),
{
    assert(added(a, c) =~= added(a, b) + added(b, c));
}

/// `2^n` for the bit counts of a byte.
pub open spec fn pow2_u8(n: u8) -> int
    decreases n,
{
    if n == 0 {
        1
    } else {
        2 * pow2_u8((n - 1) as u8)
    }
}

/// Shifting a bit into a byte that holds `count` bits keeps the earlier
/// bits one place higher and puts the new one at the bottom.
proof fn lemma_shift_in(b: u8, bit: u8, count: u8)
    requires
        count < 8,
        (b as int) < pow2_u8(count),
        bit <= 1,
    ensures
        (((b << 1u8) | bit) as int) < pow2_u8((count + 1) as u8),
        ((b << 1u8) | bit) & 1 == bit,
        (((b << 1u8) | bit) >> 0u8) & 1 == bit,
        forall|s: u8| s < count ==> #[trigger] ((((b << 1u8) | bit) >> ((s + 1) as u8)) & 1) == ((b >> s) & 1),
{
    reveal_with_fuel(pow2_u8, 9);
    let lim: u8 = if count == 0 { 1 } else if count == 1 { 2 } else if count == 2 { 4 } else if count == 3 { 8 } else if count == 4 { 16 } else if count == 5 { 32 } else if count == 6 { 64 } else { 128 };
    assert(lim as int == pow2_u8(count));
    assert(b < lim && lim <= 128 && (lim == 1 || lim == 2 || lim == 4 || lim == 8 || lim == 16 || lim == 32 || lim == 64 || lim == 128) && bit <= 1 ==> ((b << 1u8) | bit) < 2 * lim) by (bit_vector);
    assert(bit <= 1 ==> ((b << 1u8) | bit) & 1 == bit) by (bit_vector);
    assert(bit <= 1 ==> (((b << 1u8) | bit) >> 0u8) & 1 == bit) by (bit_vector);
    assert forall|s: u8| s < count implies #[trigger] ((((b << 1u8) | bit) >> ((s + 1) as u8)) & 1) == ((b >> s) & 1) by {
        assert(s < 7 && b < 128 && bit <= 1 ==> (((b << 1u8) | bit) >> ((s + 1) as u8)) & 1 == (b >> s) & 1) by (bit_vector);
    }
}

/// Bit-banged I2C master.
pub struct SoftI2C<L> {
    lines: L,
    trace: Ghost<Seq<BusEvent>>,
    clocked: Ghost<Seq<bool>>,
    scl_samples: Ghost<Seq<bool>>,
    line_ops: Ghost<Seq<LineOp>>,
    sda_up: Ghost<bool>,
    base: Ghost<Seq<LineOp>>,
    segments: Ghost<Seq<Seq<LineOp>>>,
}

/// An operation of the master on the bus lines.
#[derive(Debug, Clone, Copy, PartialEq, Eq, Structural)]
pub enum LineOp {
    /// SDA released (`true`) or driven low (`false`).
    Sda(bool),
    /// SCL released (`true`) or driven low (`false`).
    Scl(bool),
    /// A wait of half a bit period.
    Half,
    /// The end of a wait for a released SCL: seen high (`true`), or still
    /// held low after `I2C_STRETCH_MAX` polls (`false`).
    SclRise(bool),
    /// SDA sampled, with the level read.
    SdaRead(bool),
}

/// Line operations of a START: both lines released, then SDA falls while
/// SCL is high, then SCL falls.
pub open spec fn start_lines() -> Seq<LineOp> {
    seq![
        LineOp::Sda(true),
        LineOp::Scl(true),
        LineOp::Half,
        LineOp::Sda(false),
        LineOp::Half,
        LineOp::Scl(false),
    ]
}

/// Line operations of a repeated START.
pub open spec fn restart_lines() -> Seq<LineOp> {
    seq![LineOp::Sda(true), LineOp::Half] + start_lines().skip(1)
}

/// Line operations of a STOP: SDA low, SCL released, then SDA rises while
/// SCL is high.
pub open spec fn stop_lines() -> Seq<LineOp> {
    seq![
        LineOp::Sda(false),
        LineOp::Half,
        LineOp::Scl(true),
        LineOp::Half,
        LineOp::Sda(true),
        LineOp::Half,
    ]
}

/// One data bit driven by the master: SDA set to `level`, then a clock
/// pulse.
pub open spec fn bit_out_ops(level: bool) -> Seq<LineOp> {
    seq![
        LineOp::Sda(level),
        LineOp::Half,
        LineOp::Scl(true),
        LineOp::SclRise(true),
        LineOp::Half,
        LineOp::Scl(false),
    ]
}

/// The data bits `bits` driven by the master, in order.
pub open spec fn bits_out(bits: Seq<bool>) -> Seq<LineOp>
    decreases bits.len(),
{
    if bits.len() == 0 {
        Seq::empty()
    } else {
        bits_out(bits.drop_last()) + bit_out_ops(bits.last())
    }
}

/// The ninth clock of a byte sent: SDA released and sampled (`level`;
/// low is the slave's ACK).
pub open spec fn ack_in(level: bool) -> Seq<LineOp> {
    seq![
        LineOp::Sda(true),
        LineOp::Half,
        LineOp::Scl(true),
        LineOp::SclRise(true),
        LineOp::Half,
        LineOp::SdaRead(level),
        LineOp::Scl(false),
    ]
}

/// One data bit driven by the slave: a clock pulse, SDA sampled (`level`)
/// while SCL is high.
pub open spec fn bit_in_ops(level: bool) -> Seq<LineOp> {
    seq![
        LineOp::Half,
        LineOp::Scl(true),
        LineOp::SclRise(true),
        LineOp::Half,
        LineOp::SdaRead(level),
        LineOp::Scl(false),
    ]
}

/// The data bits `bits` sampled from the slave, in order.
pub open spec fn bits_in(bits: Seq<bool>) -> Seq<LineOp>
    decreases bits.len(),
{
    if bits.len() == 0 {
        Seq::empty()
    } else {
        bits_in(bits.drop_last()) + bit_in_ops(bits.last())
    }
}

/// The ninth clock of a byte received: the master drives SDA low for ACK
/// (`acked`) or leaves it released for NACK, then releases it.
pub open spec fn ack_out(acked: bool) -> Seq<LineOp> {
    seq![
        LineOp::Sda(!acked),
        LineOp::Half,
        LineOp::Scl(true),
        LineOp::SclRise(true),
        LineOp::Half,
        LineOp::Scl(false),
        LineOp::Sda(true),
    ]
}

/// A clock pulse of a byte sent, with SDA at `level`, that the slave held
/// low past the limit.
pub open spec fn stall_out(level: bool) -> Seq<LineOp> {
    seq![
        LineOp::Sda(level),
        LineOp::Half,
        LineOp::Scl(true),
        LineOp::SclRise(false),
        LineOp::Scl(false),
    ]
}

/// A data clock of a byte received that the slave held low past the limit.
pub open spec fn stall_in() -> Seq<LineOp> {
    seq![LineOp::Half, LineOp::Scl(true), LineOp::SclRise(false), LineOp::Scl(false)]
}

/// The ninth clock of a byte received, held low past the limit.
pub open spec fn stall_ack(acked: bool) -> Seq<LineOp> {
    seq![
        LineOp::Sda(!acked),
        LineOp::Half,
        LineOp::Scl(true),
        LineOp::SclRise(false),
        LineOp::Scl(false),
        LineOp::Sda(true),
    ]
}

/// Line operations of a byte cut short by a stalled clock: while sending
/// (the bits driven so far, then the stalled pulse), or while receiving
/// (the bits sampled so far, then the stalled data or ACK clock).
pub open spec fn stall_lines(ops: Seq<LineOp>) -> bool {
    ||| exists|bits: Seq<bool>, level: bool|
        #![trigger bits_out(bits), stall_out(level)]
        bits.len() <= 8 && ops == bits_out(bits) + stall_out(level)
    ||| exists|bits: Seq<bool>|
        #![trigger bits_in(bits)]
        bits.len() < 8 && ops == seq![LineOp::Sda(true)] + bits_in(bits) + stall_in()
    ||| exists|bits: Seq<bool>, acked: bool|
        #![trigger bits_in(bits), stall_ack(acked)]
        bits.len() == 8 && ops == seq![LineOp::Sda(true)] + bits_in(bits) + stall_ack(acked)
}

/// `ops` are the line operations of the bus step `e`: a START, repeated
/// START or STOP; a byte sent bit by bit and its ACK sampled, the slave's
/// ACK being SDA read low; a byte sampled bit by bit and the master's
/// ACK or NACK; or a byte cut short by a stalled clock.
pub open spec fn event_lines(e: BusEvent, ops: Seq<LineOp>) -> bool {
    match e {
        BusEvent::Start => ops == start_lines(),
        BusEvent::Restart => ops == restart_lines(),
        BusEvent::Stop => ops == stop_lines(),
        BusEvent::Sent { byte, acked } => ops == bits_out(byte_bits(byte)) + ack_in(!acked),
        BusEvent::Received { byte, acked } => ops == seq![LineOp::Sda(true)] + bits_in(
            byte_bits(byte),
        ) + ack_out(acked),
        BusEvent::Stalled => stall_lines(ops),
    }
}

/// The segments of `s`, one after the other.
pub open spec fn flat(s: Seq<Seq<LineOp>>) -> Seq<LineOp>
    decreases s.len(),
{
    if s.len() == 0 {
        Seq::empty()
    } else {
        flat(s.drop_last()) + s.last()
    }
}

/// `later` keeps every segment of `earlier`, in place.
pub open spec fn kept_segments(earlier: Seq<Seq<LineOp>>, later: Seq<Seq<LineOp>>) -> bool {
    &&& earlier.len() <= later.len()
    &&& forall|i: int| 0 <= i < earlier.len() ==> #[trigger] later[i] == earlier[i]
}

/// The samples `s` of one operation end with a wait for a stretched clock
/// that gave up: `I2C_STRETCH_MAX` polls, all low.
pub open spec fn ends_in_failed_wait(s: Seq<bool>) -> bool {
    s.len() >= I2C_STRETCH_MAX && stretch_wait(s.skip(s.len() - I2C_STRETCH_MAX), false)
}

/// `s` is one wait for a stretched clock that ended with `r`: SCL read low
/// at every poll but the last, which read it high (`r`), or low at all
/// `I2C_STRETCH_MAX` polls (not `r`).
pub open spec fn stretch_wait(s: Seq<bool>, r: bool) -> bool {
    &&& forall|i: int| 0 <= i < s.len() - 1 ==> !#[trigger] s[i]
    &&& r ==> 1 <= s.len() <= I2C_STRETCH_MAX && s.last()
    &&& !r ==> s.len() == I2C_STRETCH_MAX && !s.last()
}

impl<L: I2cLines> SoftI2C<L> {
    /// Everything that went over the bus, step by step.
    pub closed spec fn trace(&self) -> Seq<BusEvent> {
        self.trace@
    }

    /// SDA level of every completed data clock pulse: driven by the
    /// master while sending, sampled by it while receiving.
    pub closed spec fn clocked(&self) -> Seq<bool> {
        self.clocked@
    }

    /// Every level read on SCL while waiting for a stretched clock.
    pub closed spec fn scl_samples(&self) -> Seq<bool> {
        self.scl_samples@
    }

    /// Every operation of the master on the lines, in order.
    pub closed spec fn line_ops(&self) -> Seq<LineOp> {
        self.line_ops@
    }

    /// Line operations made when the bus was set up, before any step.
    pub closed spec fn base_ops(&self) -> Seq<LineOp> {
        self.base@
    }

    /// The line operations of each step of `trace()`, in order.
    pub closed spec fn segments(&self) -> Seq<Seq<LineOp>> {
        self.segments@
    }

    /// The trace is what went over the lines: the line operations are those
    /// of the set-up followed by those of each step, and each step's
    /// operations are the ones its event stands for.
    pub open spec fn lines_match(&self) -> bool {
        &&& self.segments().len() == self.trace().len()
        &&& self.line_ops() == self.base_ops() + flat(self.segments())
        &&& forall|i: int|
            0 <= i < self.trace().len() ==> event_lines(
                #[trigger] self.trace()[i],
                self.segments()[i],
            )
    }

    /// `self` is `before` after one more bus step, whose line operations
    /// are the ones appended to the record and match its event.
    pub open spec fn one_step(&self, before: Self) -> bool {
        &&& self.base_ops() == before.base_ops()
        &&& self.trace().len() == before.trace().len() + 1
        &&& self.trace().drop_last() == before.trace()
        &&& before.line_ops().is_prefix_of(self.line_ops())
        &&& self.segments() == before.segments().push(
            self.line_ops().skip(before.line_ops().len() as int),
        )
        &&& event_lines(self.trace().last(), self.segments().last())
    }

    /// One step keeps the trace matched to the lines.
    proof fn lemma_step_match(before: Self, after: Self)
        requires
            after.one_step(before),
            before.lines_match(),
        ensures
            after.lines_match(),
    {
        let seg = after.line_ops().skip(before.line_ops().len() as int);
        assert(after.segments().drop_last() =~= before.segments());
        assert(flat(after.segments()) == flat(before.segments()) + seg);
        assert(after.line_ops() =~= before.line_ops() + seg);
        assert forall|i: int| 0 <= i < after.trace().len() implies event_lines(
            #[trigger] after.trace()[i],
            after.segments()[i],
        ) by {
            if i < before.trace().len() {
                assert(after.trace()[i] == after.trace().drop_last()[i]);
                assert(after.segments()[i] == before.segments()[i]);
            } else {
                assert(after.trace()[i] == after.trace().last());
                assert(after.segments()[i] == after.segments().last());
            }
        }
        assert(after.line_ops() == after.base_ops() + flat(after.segments()));
    }

    /// SDA as the master last set it: released (`true`) or driven low.
    pub closed spec fn sda_released(&self) -> bool {
        self.sda_up@
    }

    /// Sets SDA, and records it.
    fn sda(&mut self, high: bool)
        ensures
            final(self).line_ops() == old(self).line_ops().push(LineOp::Sda(high)),
            final(self).sda_released() == high,
            final(self).trace() == old(self).trace(),
            final(self).clocked() == old(self).clocked(),
            final(self).scl_samples() == old(self).scl_samples(),
            final(self).segments() == old(self).segments(),
            final(self).base_ops() == old(self).base_ops(),
    {
        if high {
            self.lines.sda_release();
        } else {
            self.lines.sda_low();
        }
        self.line_ops = Ghost(self.line_ops@.push(LineOp::Sda(high)));
        self.sda_up = Ghost(high);
    }

    /// Sets SCL, and records it.
    fn scl(&mut self, high: bool)
        ensures
            final(self).line_ops() == old(self).line_ops().push(LineOp::Scl(high)),
            final(self).sda_released() == old(self).sda_released(),
            final(self).trace() == old(self).trace(),
            final(self).clocked() == old(self).clocked(),
            final(self).scl_samples() == old(self).scl_samples(),
            final(self).segments() == old(self).segments(),
            final(self).base_ops() == old(self).base_ops(),
    {
        if high {
            self.lines.scl_release();
        } else {
            self.lines.scl_low();
        }
        self.line_ops = Ghost(self.line_ops@.push(LineOp::Scl(high)));
    }

    /// Waits half a bit period, and records it.
    fn half(&mut self)
        ensures
            final(self).line_ops() == old(self).line_ops().push(LineOp::Half),
            final(self).sda_released() == old(self).sda_released(),
            final(self).trace() == old(self).trace(),
            final(self).clocked() == old(self).clocked(),
            final(self).scl_samples() == old(self).scl_samples(),
            final(self).segments() == old(self).segments(),
            final(self).base_ops() == old(self).base_ops(),
    {
        self.lines.half_period();
        self.line_ops = Ghost(self.line_ops@.push(LineOp::Half));
    }

    /// Samples SDA, and records the level read.
    fn sample_sda(&mut self) -> (level: bool)
        ensures
            final(self).line_ops() == old(self).line_ops().push(LineOp::SdaRead(level)),
            final(self).sda_released() == old(self).sda_released(),
            final(self).trace() == old(self).trace(),
            final(self).clocked() == old(self).clocked(),
            final(self).scl_samples() == old(self).scl_samples(),
            final(self).segments() == old(self).segments(),
            final(self).base_ops() == old(self).base_ops(),
    {
        let level = self.lines.sda_is_high();
        self.line_ops = Ghost(self.line_ops@.push(LineOp::SdaRead(level)));
        level
    }

    /// Releases both lines (idle bus).
    pub fn new(lines: L) -> (r: Self)
        ensures
            r.trace() == Seq::<BusEvent>::empty(),
            r.clocked() == Seq::<bool>::empty(),
            r.line_ops() == seq![LineOp::Sda(true), LineOp::Scl(true)],
            r.segments() == Seq::<Seq<LineOp>>::empty(),
            r.lines_match(),
    {
        let mut bus = SoftI2C {
            lines,
            trace: Ghost(Seq::empty()),
            clocked: Ghost(Seq::empty()),
            scl_samples: Ghost(Seq::empty()),
            line_ops: Ghost(Seq::empty()),
            sda_up: Ghost(true),
            base: Ghost(Seq::empty()),
            segments: Ghost(Seq::empty()),
        };
        bus.sda(true);
        bus.scl(true);
        bus.base = Ghost(bus.line_ops@);
        assert(bus.line_ops() =~= bus.base_ops() + flat(bus.segments()));
        bus
    }

    /// Waits for a released SCL to rise (clock stretching); `false` after
    /// `I2C_STRETCH_MAX` half periods. The samples are recorded, and the
    /// outcome as one line operation.
    fn wait_scl_high(&mut self) -> (r: bool)
        ensures
            final(self).trace() == old(self).trace(),
            final(self).clocked() == old(self).clocked(),
            final(self).sda_released() == old(self).sda_released(),
            final(self).segments() == old(self).segments(),
            final(self).base_ops() == old(self).base_ops(),
            final(self).line_ops() == old(self).line_ops().push(LineOp::SclRise(r)),
            old(self).scl_samples().is_prefix_of(final(self).scl_samples()),
            stretch_wait(final(self).scl_samples().skip(old(self).scl_samples().len() as int), r),
    {
        let ghost start = self.scl_samples@;
        let mut polls: u16 = 0;
        while polls < I2C_STRETCH_MAX
            invariant
                self.trace() == old(self).trace(),
                self.clocked() == old(self).clocked(),
                self.sda_released() == old(self).sda_released(),
                self.segments() == old(self).segments(),
                self.base_ops() == old(self).base_ops(),
                self.line_ops() == old(self).line_ops(),
                start == old(self).scl_samples(),
                start.is_prefix_of(self.scl_samples()),
                self.scl_samples().len() == start.len() + polls,
                polls <= I2C_STRETCH_MAX,
                forall|i: int|
                    0 <= i < polls ==> !#[trigger] self.scl_samples().skip(start.len() as int)[i],
            decreases I2C_STRETCH_MAX - polls,
        {
            let high = self.lines.scl_is_high();
            proof {
                let before = self.scl_samples@;
                self.scl_samples@ = self.scl_samples@.push(high);
                assert(self.scl_samples().skip(start.len() as int) =~= before.skip(
                    start.len() as int,
                ).push(high));
            }
            if high {
                self.line_ops = Ghost(self.line_ops@.push(LineOp::SclRise(true)));
                return true;
            }
            self.lines.half_period();
            polls = polls + 1;
        }
        self.line_ops = Ghost(self.line_ops@.push(LineOp::SclRise(false)));
        false
    }

    /// START: SDA falls while SCL is high.
    fn start(&mut self)
        ensures
            final(self).trace() == old(self).trace().push(BusEvent::Start),
            final(self).clocked() == old(self).clocked(),
            final(self).line_ops() == old(self).line_ops() + start_lines(),
            final(self).one_step(*old(self)),
            old(self).lines_match() ==> final(self).lines_match(),
    {
        let ghost before = *self;
        self.sda(true);
        self.scl(true);
        self.half();
        self.sda(false);
        self.half();
        self.scl(false);
        self.trace = Ghost(self.trace@.push(BusEvent::Start));
        self.segments = Ghost(self.segments@.push(self.line_ops@.skip(before.line_ops().len() as int)));
        proof {
            assert(self.line_ops().skip(before.line_ops().len() as int) =~= start_lines());
            assert(self.trace().drop_last() =~= before.trace());
            if before.lines_match() {
                Self::lemma_step_match(before, *self);
            }
        }
    }

    /// Repeated START.
    fn restart(&mut self)
        ensures
            final(self).trace() == old(self).trace().push(BusEvent::Restart),
            final(self).clocked() == old(self).clocked(),
            final(self).line_ops() == old(self).line_ops() + restart_lines(),
            final(self).one_step(*old(self)),
            old(self).lines_match() ==> final(self).lines_match(),
    {
        let ghost before = *self;
        self.sda(true);
        self.half();
        self.scl(true);
        self.half();
        self.sda(false);
        self.half();
        self.scl(false);
        self.trace = Ghost(self.trace@.push(BusEvent::Restart));
        self.segments = Ghost(self.segments@.push(self.line_ops@.skip(before.line_ops().len() as int)));
        proof {
            assert(self.line_ops().skip(before.line_ops().len() as int) =~= restart_lines());
            assert(self.trace().drop_last() =~= before.trace());
            if before.lines_match() {
                Self::lemma_step_match(before, *self);
            }
        }
    }

    /// STOP: SDA rises while SCL is high.
    fn stop(&mut self)
        ensures
            final(self).trace() == old(self).trace().push(BusEvent::Stop),
            final(self).clocked() == old(self).clocked(),
            final(self).line_ops() == old(self).line_ops() + stop_lines(),
            final(self).one_step(*old(self)),
            old(self).lines_match() ==> final(self).lines_match(),
    {
        let ghost before = *self;
        self.sda(false);
        self.half();
        self.scl(true);
        self.half();
        self.sda(true);
        self.half();
        self.trace = Ghost(self.trace@.push(BusEvent::Stop));
        self.segments = Ghost(self.segments@.push(self.line_ops@.skip(before.line_ops().len() as int)));
        proof {
            assert(self.line_ops().skip(before.line_ops().len() as int) =~= stop_lines());
            assert(self.trace().drop_last() =~= before.trace());
            if before.lines_match() {
                Self::lemma_step_match(before, *self);
            }
        }
    }

    /// Records the step `e` whose line operations began at `before`.
    fn close_step(&mut self, Ghost(before): Ghost<Self>, e: BusEvent)
        requires
            old(self).base_ops() == before.base_ops(),
            old(self).trace() == before.trace(),
            old(self).segments() == before.segments(),
            before.line_ops().is_prefix_of(old(self).line_ops()),
            event_lines(e, old(self).line_ops().skip(before.line_ops().len() as int)),
        ensures
            final(self).trace() == before.trace().push(e),
            final(self).line_ops() == old(self).line_ops(),
            final(self).clocked() == old(self).clocked(),
            final(self).scl_samples() == old(self).scl_samples(),
            final(self).sda_released() == old(self).sda_released(),
            final(self).one_step(before),
            before.lines_match() ==> final(self).lines_match(),
    {
        self.trace = Ghost(self.trace@.push(e));
        self.segments = Ghost(
            self.segments@.push(self.line_ops@.skip(before.line_ops().len() as int)),
        );
        proof {
            assert(self.trace().drop_last() =~= before.trace());
            if before.lines_match() {
                Self::lemma_step_match(before, *self);
            }
        }
    }

    /// Sends `byte` most significant bit first and reads the slave's ACK
    /// (SDA low on the ninth clock). `false` on a NACK or a stalled clock.
    fn write_byte(&mut self, byte: u8) -> (r: bool)
        ensures
            r ==> final(self).trace() == old(self).trace().push(
                BusEvent::Sent { byte, acked: true },
            ),
            r ==> final(self).clocked() == old(self).clocked() + byte_bits(byte),
            !r ==> final(self).trace() == old(self).trace().push(
                BusEvent::Sent { byte, acked: false },
            ) || final(self).trace() == old(self).trace().push(BusEvent::Stalled),
            final(self).one_step(*old(self)),
            old(self).lines_match() ==> final(self).lines_match(),
            old(self).scl_samples().is_prefix_of(final(self).scl_samples()),
            final(self).trace().last() == BusEvent::Stalled ==> ends_in_failed_wait(
                final(self).scl_samples().skip(old(self).scl_samples().len() as int),
            ),
    {
        let ghost before = *self;
        let ghost ops0 = self.line_ops@;
        let ghost samples0 = self.scl_samples@;
        let ghost start_clocked = self.clocked@;
        let mut bit: u8 = 8;
        while bit > 0
            invariant
                bit <= 8,
                before == *old(self),
                ops0 == before.line_ops(),
                samples0 == before.scl_samples(),
                self.trace() == old(self).trace(),
                self.segments() == before.segments(),
                self.base_ops() == before.base_ops(),
                start_clocked == old(self).clocked(),
                self.clocked() == start_clocked + byte_bits(byte).take(8 - bit),
                self.line_ops() == ops0 + bits_out(byte_bits(byte).take(8 - bit)),
                samples0.is_prefix_of(self.scl_samples()),
            decreases bit,
        {
            bit = bit - 1;
            let level = (byte >> bit) & 1 == 1;
            let ghost done = byte_bits(byte).take(7 - bit);
            proof {
                assert(byte_bits(byte).take(8 - bit) =~= done.push(level));
                assert(done.push(level).drop_last() =~= done);
            }
            self.sda(level);
            self.half();
            self.scl(true);
            let ghost mid = self.scl_samples@;
            if !self.wait_scl_high() {
                self.scl(false);
                proof {
                    assert(self.line_ops().skip(ops0.len() as int) =~= bits_out(done) + stall_out(
                        level,
                    ));
                    assert(done.len() <= 8);
                    assert(stall_lines(self.line_ops().skip(ops0.len() as int)));
                    let ext = self.scl_samples().skip(samples0.len() as int);
                    assert(ext.skip(ext.len() - I2C_STRETCH_MAX) =~= self.scl_samples().skip(
                        mid.len() as int,
                    ));
                }
                self.close_step(Ghost(before), BusEvent::Stalled);
                return false;
            }
            proof {
                self.clocked@ = self.clocked@.push(self.sda_up@);
            }
            self.half();
            self.scl(false);
            proof {
                assert(self.line_ops() =~= ops0 + bits_out(byte_bits(byte).take(8 - bit)));
            }
        }
        assert(byte_bits(byte).take(8) =~= byte_bits(byte));
        self.sda(true);
        self.half();
        self.scl(true);
        let ghost mid = self.scl_samples@;
        if !self.wait_scl_high() {
            self.scl(false);
            proof {
                assert(self.line_ops().skip(ops0.len() as int) =~= bits_out(byte_bits(byte))
                    + stall_out(true));
                assert(stall_lines(self.line_ops().skip(ops0.len() as int)));
                let ext = self.scl_samples().skip(samples0.len() as int);
                assert(ext.skip(ext.len() - I2C_STRETCH_MAX) =~= self.scl_samples().skip(
                    mid.len() as int,
                ));
            }
            self.close_step(Ghost(before), BusEvent::Stalled);
            return false;
        }
        self.half();
        let level = self.sample_sda();
        let ack = !level;
        self.scl(false);
        proof {
            assert(self.line_ops().skip(ops0.len() as int) =~= bits_out(byte_bits(byte)) + ack_in(
                level,
            ));
        }
        self.close_step(Ghost(before), BusEvent::Sent { byte, acked: ack });
        ack
    }

    /// Receives a byte most significant bit first, then answers ACK
    /// (`send_ack`) or NACK. `None` on a stalled clock.
    fn read_byte(&mut self, send_ack: bool) -> (r: Option<u8>)
        ensures
            r is Some ==> final(self).trace() == old(self).trace().push(
                BusEvent::Received { byte: r->0, acked: send_ack },
            ),
            r is Some ==> final(self).clocked() == old(self).clocked() + byte_bits(r->0),
            r is None ==> final(self).trace() == old(self).trace().push(BusEvent::Stalled),
            final(self).one_step(*old(self)),
            old(self).lines_match() ==> final(self).lines_match(),
            old(self).scl_samples().is_prefix_of(final(self).scl_samples()),
            r is None ==> ends_in_failed_wait(
                final(self).scl_samples().skip(old(self).scl_samples().len() as int),
            ),
    {
        let ghost before = *self;
        let ghost ops0 = self.line_ops@;
        let ghost samples0 = self.scl_samples@;
        let ghost start_clocked = self.clocked@;
        let mut byte: u8 = 0;
        let mut count: u8 = 0;
        self.sda(true);
        while count < 8
            invariant
                count <= 8,
                before == *old(self),
                ops0 == before.line_ops(),
                samples0 == before.scl_samples(),
                self.trace() == old(self).trace(),
                self.segments() == before.segments(),
                self.base_ops() == before.base_ops(),
                start_clocked == old(self).clocked(),
                self.clocked().len() == start_clocked.len() + count,
                self.clocked().take(start_clocked.len() as int) == start_clocked,
                (byte as int) < pow2_u8(count),
                forall|j: int|
                    0 <= j < count ==> #[trigger] self.clocked()[start_clocked.len() + j] == ((
                    byte >> ((count - 1 - j) as u8)) & 1 == 1),
                self.line_ops() == ops0 + seq![LineOp::Sda(true)] + bits_in(
                    self.clocked().skip(start_clocked.len() as int),
                ),
                samples0.is_prefix_of(self.scl_samples()),
            decreases 8 - count,
        {
            let ghost prev = byte;
            let ghost got = self.clocked().skip(start_clocked.len() as int);
            self.half();
            self.scl(true);
            let ghost mid = self.scl_samples@;
            if !self.wait_scl_high() {
                self.scl(false);
                proof {
                    assert(self.line_ops().skip(ops0.len() as int) =~= seq![LineOp::Sda(true)]
                        + bits_in(got) + stall_in());
                    assert(got.len() < 8);
                    assert(stall_lines(self.line_ops().skip(ops0.len() as int)));
                    let ext = self.scl_samples().skip(samples0.len() as int);
                    assert(ext.skip(ext.len() - I2C_STRETCH_MAX) =~= self.scl_samples().skip(
                        mid.len() as int,
                    ));
                }
                self.close_step(Ghost(before), BusEvent::Stalled);
                return None;
            }
            self.half();
            let level = self.sample_sda();
            let bit: u8 = if level { 1 } else { 0 };
            proof {
                lemma_shift_in(prev, bit, count);
            }
            byte = (byte << 1u8) | bit;
            proof {
                let ghost old_clocked = self.clocked@;
                self.clocked@ = self.clocked@.push(level);
                assert forall|j: int| 0 <= j < count + 1 implies #[trigger] self.clocked()[start_clocked.len() + j]
                    == ((byte >> ((count - j) as u8)) & 1 == 1) by {
                    if j < count {
                        let sh = (count - 1 - j) as u8;
                        assert(old_clocked[start_clocked.len() + j] == ((prev >> sh) & 1 == 1));
                        assert(((((prev << 1u8) | bit) >> ((sh + 1) as u8)) & 1) == ((prev >> sh) & 1));
                        assert((sh + 1) as u8 == (count - j) as u8);
                    } else {
                        assert((count - j) as u8 == 0u8);
                    }
                }
                assert(self.clocked().take(start_clocked.len() as int) =~= start_clocked);
                let now = self.clocked().skip(start_clocked.len() as int);
                assert(now =~= got.push(level));
                assert(now.drop_last() =~= got);
            }
            self.scl(false);
            proof {
                assert(self.line_ops() =~= ops0 + seq![LineOp::Sda(true)] + bits_in(
                    self.clocked().skip(start_clocked.len() as int),
                ));
            }
            count = count + 1;
        }
        proof {
            assert forall|i: int| 0 <= i < 8 implies #[trigger] byte_bits(byte)[i] == self.clocked()[start_clocked.len() + i] by {
                assert((8 - 1 - i) as u8 == (7 - i) as u8);
            }
            assert(self.clocked() =~= start_clocked + byte_bits(byte));
            assert(self.clocked().skip(start_clocked.len() as int) =~= byte_bits(byte));
        }
        self.sda(!send_ack);
        self.half();
        self.scl(true);
        let ghost mid = self.scl_samples@;
        if !self.wait_scl_high() {
            self.scl(false);
            self.sda(true);
            proof {
                assert(self.line_ops().skip(ops0.len() as int) =~= seq![LineOp::Sda(true)]
                    + bits_in(byte_bits(byte)) + stall_ack(send_ack));
                assert(stall_lines(self.line_ops().skip(ops0.len() as int)));
                let ext = self.scl_samples().skip(samples0.len() as int);
                assert(ext.skip(ext.len() - I2C_STRETCH_MAX) =~= self.scl_samples().skip(
                    mid.len() as int,
                ));
            }
            self.close_step(Ghost(before), BusEvent::Stalled);
            return None;
        }
        self.half();
        self.scl(false);
        self.sda(true);
        proof {
            assert(self.line_ops().skip(ops0.len() as int) =~= seq![LineOp::Sda(true)] + bits_in(
                byte_bits(byte),
            ) + ack_out(send_ack));
        }
        self.close_step(Ghost(before), BusEvent::Received { byte, acked: send_ack });
        Some(byte)
    }

    /// Sends `bytes` in order and stops at the first one that fails.
    fn send_all(&mut self, bytes: &[u8]) -> (r: bool)
        ensures
            old(self).lines_match() ==> final(self).lines_match(),
            final(self).base_ops() == old(self).base_ops(),
            kept_segments(old(self).segments(), final(self).segments()),
            r ==> final(self).trace() == old(self).trace() + sent_acked(bytes@),
            !r ==> exists|n: int, e: BusEvent|
                0 <= n < bytes@.len() && fails(BusEvent::Sent { byte: bytes@[n], acked: true }, e)
                    && final(self).trace() == old(self).trace() + sent_acked(bytes@.take(n)).push(e),
    {
        let mut i: usize = 0;
        while i < bytes.len()
            invariant
                i <= bytes.len(),
                self.trace() == old(self).trace() + sent_acked(bytes@.take(i as int)),
                old(self).lines_match() ==> self.lines_match(),
                self.base_ops() == old(self).base_ops(),
                kept_segments(old(self).segments(), self.segments()),
            decreases bytes.len() - i,
        {
            let ghost before = self.trace();
            if !self.write_byte(bytes[i]) {
                proof {
                    let e = self.trace().last();
                    assert(self.trace() == before.push(e));
                    assert(fails(BusEvent::Sent { byte: bytes@[i as int], acked: true }, e));
                }
                return false;
            }
            assert(sent_acked(bytes@.take(i + 1)) =~= sent_acked(bytes@.take(i as int)).push(
                BusEvent::Sent { byte: bytes@[i as int], acked: true },
            ));
            i = i + 1;
        }
        assert(bytes@.take(bytes@.len() as int) =~= bytes@);
        true
    }

    /// One write transaction: START, `head` then `data`, each byte
    /// acknowledged, and STOP (also after a failure).
    fn transmit(&mut self, head: &[u8], data: &[u8]) -> (r: bool)
        requires
            head@.len() >= 1,
        ensures
            old(self).lines_match() ==> final(self).lines_match(),
            final(self).base_ops() == old(self).base_ops(),
            kept_segments(old(self).segments(), final(self).segments()),
            old(self).trace().is_prefix_of(final(self).trace()),
            r ==> final(self).trace().skip(old(self).trace().len() as int) == (seq![BusEvent::Start]
                + sent_acked(head@ + data@)).push(BusEvent::Stop),
            !r ==> exists|p: int|
                broken_at(
                    seq![BusEvent::Start] + sent_acked(head@ + data@),
                    p,
                    final(self).trace().skip(old(self).trace().len() as int),
                ),
    {
        let ghost t0 = self.trace();
        let ghost ok = seq![BusEvent::Start] + sent_acked(head@ + data@);
        assert(sent_acked(head@ + data@) =~= sent_acked(head@) + sent_acked(data@));
        self.start();
        if !self.send_all(head) {
            let ghost mid = self.trace();
            self.stop();
            proof {
                let (n, e) = choose|n: int, e: BusEvent|
                    0 <= n < head@.len() && fails(BusEvent::Sent { byte: head@[n], acked: true }, e)
                        && mid == t0.push(BusEvent::Start) + sent_acked(head@.take(n)).push(e);
                let ext = self.trace().skip(t0.len() as int);
                assert(ext =~= (seq![BusEvent::Start] + sent_acked(head@.take(n))).push(e).push(
                    BusEvent::Stop,
                ));
                assert(ext.take(n + 1) =~= ok.take(n + 1));
                assert(ok[n + 1] == BusEvent::Sent { byte: head@[n], acked: true });
                assert(broken_at(ok, n + 1, ext));
            }
            return false;
        }
        if !self.send_all(data) {
            let ghost mid = self.trace();
            self.stop();
            proof {
                let (n, e) = choose|n: int, e: BusEvent|
                    0 <= n < data@.len() && fails(BusEvent::Sent { byte: data@[n], acked: true }, e)
                        && mid == t0.push(BusEvent::Start) + sent_acked(head@) + sent_acked(
                        data@.take(n),
                    ).push(e);
                let p = n + 1 + head@.len();
                let ext = self.trace().skip(t0.len() as int);
                assert(ext =~= (seq![BusEvent::Start] + sent_acked(head@) + sent_acked(
                    data@.take(n),
                )).push(e).push(BusEvent::Stop));
                assert(ext.take(p) =~= ok.take(p));
                assert(ok[p] == BusEvent::Sent { byte: data@[n], acked: true });
                assert(broken_at(ok, p, ext));
            }
            return false;
        }
        self.stop();
        assert(self.trace().skip(t0.len() as int) =~= ok.push(BusEvent::Stop));
        true
    }

    /// Writes `data` to the 8-bit register `reg` of the device at the
    /// 7-bit address `addr`; `false` on a NACK or a stalled clock.
    pub fn write(&mut self, addr: u8, reg: u8, data: &[u8]) -> (r: bool)
        ensures
            old(self).lines_match() ==> final(self).lines_match(),
            final(self).base_ops() == old(self).base_ops(),
            kept_segments(old(self).segments(), final(self).segments()),
            old(self).trace().is_prefix_of(final(self).trace()),
            write_tx(
                addr,
                seq![reg],
                data@,
                final(self).trace().skip(old(self).trace().len() as int),
                r,
            ),
    {
        let head = [addr << 1u8, reg];
        assert(head@ =~= seq![write_address(addr)] + seq![reg]);
        assert(seq![write_address(addr)] + seq![reg] + data@ =~= head@ + data@);
        assert(write_ok(addr, seq![reg], data@) == seq![BusEvent::Start] + sent_acked(
            head@ + data@,
        ));
        self.transmit(&head, data)
    }

    /// Writes `data` to the 16-bit register `reg` (sent high byte first).
    pub fn write16(&mut self, addr: u8, reg: u16, data: &[u8]) -> (r: bool)
        ensures
            old(self).lines_match() ==> final(self).lines_match(),
            final(self).base_ops() == old(self).base_ops(),
            kept_segments(old(self).segments(), final(self).segments()),
            old(self).trace().is_prefix_of(final(self).trace()),
            write_tx(
                addr,
                seq![(reg >> 8u16) as u8, (reg & 0xFFu16) as u8],
                data@,
                final(self).trace().skip(old(self).trace().len() as int),
                r,
            ),
    {
        let head = [addr << 1u8, (reg >> 8u16) as u8, (reg & 0xFFu16) as u8];
        assert(head@ =~= seq![write_address(addr)] + seq![
            (reg >> 8u16) as u8,
            (reg & 0xFFu16) as u8,
        ]);
        assert(seq![write_address(addr)] + seq![(reg >> 8u16) as u8, (reg & 0xFFu16) as u8]
            + data@ =~= head@ + data@);
        assert(write_ok(addr, seq![(reg >> 8u16) as u8, (reg & 0xFFu16) as u8], data@) == seq![
            BusEvent::Start,
        ] + sent_acked(head@ + data@));
        self.transmit(&head, data)
    }

    /// One read transaction: START, `head` written, repeated START, the
    /// read address `rd`, then `buf.len()` bytes received (ACK after each
    /// but the last), and STOP (also after a failure).
    fn receive(&mut self, head: &[u8], rd: u8, buf: &mut [u8]) -> (r: bool)
        ensures
            old(self).lines_match() ==> final(self).lines_match(),
            final(self).base_ops() == old(self).base_ops(),
            kept_segments(old(self).segments(), final(self).segments()),
            final(buf)@.len() == old(buf)@.len(),
            old(self).trace().is_prefix_of(final(self).trace()),
            r ==> final(self).trace().skip(old(self).trace().len() as int) == receive_ok(
                head@,
                rd,
                final(buf)@,
            ).push(BusEvent::Stop),
            !r ==> exists|p: int|
                #![trigger broken_at(receive_ok(head@, rd, final(buf)@), p, final(self).trace().skip(old(self).trace().len() as int))]
                broken_at(
                    receive_ok(head@, rd, final(buf)@),
                    p,
                    final(self).trace().skip(old(self).trace().len() as int),
                ) && final(buf)@.skip(taken_before(head@.len() as int, p)) == old(buf)@.skip(
                    taken_before(head@.len() as int, p),
                ),
    {
        let ghost t0 = self.trace();
        let ghost b0 = buf@;
        self.start();
        if !self.send_all(head) {
            let ghost mid = self.trace();
            self.stop();
            proof {
                let ok = receive_ok(head@, rd, buf@);
                let (n, e) = choose|n: int, e: BusEvent|
                    0 <= n < head@.len() && fails(BusEvent::Sent { byte: head@[n], acked: true }, e)
                        && mid == t0.push(BusEvent::Start) + sent_acked(head@.take(n)).push(e);
                let ext = self.trace().skip(t0.len() as int);
                assert(ext =~= (seq![BusEvent::Start] + sent_acked(head@.take(n))).push(e).push(
                    BusEvent::Stop,
                ));
                assert(ext.take(n + 1) =~= ok.take(n + 1));
                assert(ok[n + 1] == BusEvent::Sent { byte: head@[n], acked: true });
                assert(broken_at(ok, n + 1, ext));
                assert(buf@.skip(taken_before(head@.len() as int, n + 1)) == b0.skip(0));
            }
            return false;
        }
        self.restart();
        let ghost base = self.trace();
        if !self.write_byte(rd) {
            self.stop();
            proof {
                let ok = receive_ok(head@, rd, buf@);
                let p = head@.len() + 2int;
                let ext = self.trace().skip(t0.len() as int);
                let e = ext[p];
                assert(ext =~= (seq![BusEvent::Start] + sent_acked(head@) + seq![
                    BusEvent::Restart,
                ]).push(e).push(BusEvent::Stop));
                assert(ext.take(p) =~= ok.take(p));
                assert(ok[p] == BusEvent::Sent { byte: rd, acked: true });
                assert(broken_at(ok, p, ext));
                assert(buf@.skip(taken_before(head@.len() as int, p)) == b0.skip(0));
            }
            return false;
        }
        let ghost hdr = self.trace();
        assert(hdr.skip(t0.len() as int) =~= seq![BusEvent::Start] + sent_acked(head@) + seq![
            BusEvent::Restart,
        ] + sent_acked(seq![rd]));
        let n = buf.len();
        let last: usize = if n == 0 {
            0
        } else {
            n - 1
        };
        let mut i: usize = 0;
        while i < n
            invariant
                i <= n,
                n == buf@.len(),
                b0.len() == n,
                b0 == old(buf)@,
                t0 == old(self).trace(),
                last == (if n == 0 { 0 } else { n - 1 }),
                t0.is_prefix_of(hdr),
                hdr.skip(t0.len() as int) == seq![BusEvent::Start] + sent_acked(head@) + seq![
                    BusEvent::Restart,
                ] + sent_acked(seq![rd]),
                buf@.skip(i as int) == b0.skip(i as int),
                self.trace() == hdr + received(buf@).take(i as int),
                old(self).lines_match() ==> self.lines_match(),
                self.base_ops() == old(self).base_ops(),
                kept_segments(old(self).segments(), self.segments()),
            decreases n - i,
        {
            let ghost before = self.trace();
            let ghost prev_buf = buf@;
            match self.read_byte(i != last) {
                Some(v) => {
                    buf[i] = v;
                    proof {
                        assert(received(prev_buf).take(i as int) =~= received(buf@).take(i as int));
                        assert(received(buf@).take(i + 1) =~= received(buf@).take(i as int).push(
                            BusEvent::Received { byte: v, acked: i != last },
                        ));
                        assert(buf@.skip(i + 1) =~= b0.skip(i + 1)) by {
                            assert forall|j: int| 0 <= j < n - i - 1 implies #[trigger] buf@.skip(i + 1)[j] == b0.skip(i + 1)[j] by {
                                assert(prev_buf.skip(i as int)[j + 1] == b0.skip(i as int)[j + 1]);
                            }
                        }
                    }
                },
                None => {
                    self.stop();
                    proof {
                        let ok = receive_ok(head@, rd, buf@);
                        let p = head@.len() + 3int + i;
                        let ext = self.trace().skip(t0.len() as int);
                        assert(ext =~= (hdr.skip(t0.len() as int) + received(buf@).take(
                            i as int,
                        )).push(BusEvent::Stalled).push(BusEvent::Stop));
                        assert(ext.take(p) =~= ok.take(p));
                        assert(broken_at(ok, p, ext));
                        assert(taken_before(head@.len() as int, p) == i);
                    }
                    return false;
                },
            }
            i = i + 1;
        }
        self.stop();
        proof {
            assert(received(buf@).take(n as int) =~= received(buf@));
            assert(self.trace().skip(t0.len() as int) =~= receive_ok(head@, rd, buf@).push(
                BusEvent::Stop,
            ));
        }
        true
    }

    /// Reads `buf.len()` bytes from the 8-bit register `reg` of the device
    /// at the 7-bit address `addr`; `false` on a NACK or a stalled clock.
    pub fn read(&mut self, addr: u8, reg: u8, buf: &mut [u8]) -> (r: bool)
        ensures
            old(self).lines_match() ==> final(self).lines_match(),
            final(self).base_ops() == old(self).base_ops(),
            kept_segments(old(self).segments(), final(self).segments()),
            old(self).trace().is_prefix_of(final(self).trace()),
            read_tx(
                addr,
                seq![reg],
                final(buf)@,
                old(buf)@,
                final(self).trace().skip(old(self).trace().len() as int),
                r,
            ),
    {
        let head = [addr << 1u8, reg];
        assert(head@ =~= seq![write_address(addr)] + seq![reg]);
        let r = self.receive(&head, (addr << 1u8) | 1u8, buf);
        proof {
            let ext = self.trace().skip(old(self).trace().len() as int);
            assert(read_ok(addr, seq![reg], buf@) == receive_ok(head@, read_address(addr), buf@));
            if !r {
                let p = choose|p: int|
                    #![trigger broken_at(receive_ok(head@, read_address(addr), buf@), p, ext)]
                    broken_at(receive_ok(head@, read_address(addr), buf@), p, ext) && buf@.skip(
                        taken_before(head@.len() as int, p),
                    ) == old(buf)@.skip(taken_before(head@.len() as int, p));
                assert(received_before(seq![reg], p) == taken_before(head@.len() as int, p));
                assert(broken_at(read_ok(addr, seq![reg], buf@), p, ext));
            }
        }
        r
    }

    /// Reads `buf.len()` bytes from the 16-bit register `reg` (sent high
    /// byte first).
    pub fn read16(&mut self, addr: u8, reg: u16, buf: &mut [u8]) -> (r: bool)
        ensures
            old(self).lines_match() ==> final(self).lines_match(),
            final(self).base_ops() == old(self).base_ops(),
            kept_segments(old(self).segments(), final(self).segments()),
            old(self).trace().is_prefix_of(final(self).trace()),
            read_tx(
                addr,
                seq![(reg >> 8u16) as u8, (reg & 0xFFu16) as u8],
                final(buf)@,
                old(buf)@,
                final(self).trace().skip(old(self).trace().len() as int),
                r,
            ),
    {
        let head = [addr << 1u8, (reg >> 8u16) as u8, (reg & 0xFFu16) as u8];
        let ghost regs = seq![(reg >> 8u16) as u8, (reg & 0xFFu16) as u8];
        assert(head@ =~= seq![write_address(addr)] + regs);
        let r = self.receive(&head, (addr << 1u8) | 1u8, buf);
        proof {
            let ext = self.trace().skip(old(self).trace().len() as int);
            assert(read_ok(addr, regs, buf@) == receive_ok(head@, read_address(addr), buf@));
            if !r {
                let p = choose|p: int|
                    #![trigger broken_at(receive_ok(head@, read_address(addr), buf@), p, ext)]
                    broken_at(receive_ok(head@, read_address(addr), buf@), p, ext) && buf@.skip(
                        taken_before(head@.len() as int, p),
                    ) == old(buf)@.skip(taken_before(head@.len() as int, p));
                assert(received_before(regs, p) == taken_before(head@.len() as int, p));
                assert(broken_at(read_ok(addr, regs, buf@), p, ext));
            }
        }
        r
    }
}

} // verus!
