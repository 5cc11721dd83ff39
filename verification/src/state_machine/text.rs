//! The ASCII protocol between the high-level controller and the rover:
//! command parsing and response encoding. Texts are written as byte codes;
//! the comment next to each gives the characters.

use vstd::prelude::*;

use crate::state_machine::{AvoidDir, Command, Response, RoverState, SafetyState, SensorFrame};

verus! {

// ─── Protocol texts ──────────────────────────────────────────────────────────

/// "PING"
pub open spec fn text_ping() -> Seq<u8> {
    seq![80u8, 73, 78, 71]
}

/// "STB"
pub open spec fn text_stb() -> Seq<u8> {
    seq![83u8, 84, 66]
}

/// "RET"
pub open spec fn text_ret() -> Seq<u8> {
    seq![82u8, 69, 84]
}

/// "FLT"
pub open spec fn text_flt() -> Seq<u8> {
    seq![70u8, 76, 84]
}

/// "RST"
pub open spec fn text_rst() -> Seq<u8> {
    seq![82u8, 83, 84]
}

/// "EXP:"
pub open spec fn text_exp_prefix() -> Seq<u8> {
    seq![69u8, 88, 80, 58]
}

/// "AVD:"
pub open spec fn text_avd_prefix() -> Seq<u8> {
    seq![65u8, 86, 68, 58]
}

/// "PONG\n"
pub open spec fn text_pong() -> Seq<u8> {
    seq![80u8, 79, 78, 71, 10]
}

/// "ERR:ESTOP\n"
pub open spec fn text_err_estop() -> Seq<u8> {
    seq![69u8, 82, 82, 58, 69, 83, 84, 79, 80, 10]
}

/// "ERR:UNKNOWN\n"
pub open spec fn text_err_unknown() -> Seq<u8> {
    seq![69u8, 82, 82, 58, 85, 78, 75, 78, 79, 87, 78, 10]
}

/// "ERR:WDOG\n"
pub open spec fn text_err_wdog() -> Seq<u8> {
    seq![69u8, 82, 82, 58, 87, 68, 79, 71, 10]
}

/// "ACK:"
pub open spec fn text_ack_prefix() -> Seq<u8> {
    seq![65u8, 67, 75, 58]
}

/// "TLM:"
pub open spec fn text_tlm_prefix() -> Seq<u8> {
    seq![84u8, 76, 77, 58]
}

/// Three-letter label of a state: STB, EXP, AVD, RET, FLT, SFE.
pub open spec fn state_label_spec(s: RoverState) -> Seq<u8> {
    match s {
        RoverState::Standby => seq![83u8, 84, 66],
        RoverState::Explore => seq![69u8, 88, 80],
        RoverState::Avoid => seq![65u8, 86, 68],
        RoverState::Retreat => seq![82u8, 69, 84],
        RoverState::Fault => seq![70u8, 76, 84],
        RoverState::Safe => seq![83u8, 70, 69],
    }
}

/// Label of a safety level: NORMAL, WARN, LIMIT, FAULT.
pub open spec fn safety_label_spec(s: SafetyState) -> Seq<u8> {
    match s {
        SafetyState::Normal => seq![78u8, 79, 82, 77, 65, 76],
        SafetyState::Warn => seq![87u8, 65, 82, 78],
        SafetyState::Limit => seq![76u8, 73, 77, 73, 84],
        SafetyState::FaultStall => seq![70u8, 65, 85, 76, 84],
    }
}

/// '1' when bit `b` of `mask` is set, '0' otherwise.
pub open spec fn mask_char(mask: u8, b: u8) -> u8 {
    if (mask >> b) & 1u8 == 1u8 {
        49u8
    } else {
        48u8
    }
}

/// The six stall bits, most significant (bit 5) first.
pub open spec fn stall_bits(mask: u8) -> Seq<u8> {
    seq![
        mask_char(mask, 5),
        mask_char(mask, 4),
        mask_char(mask, 3),
        mask_char(mask, 2),
        mask_char(mask, 1),
        mask_char(mask, 0),
    ]
}

/// Decimal digits of `n`, without leading zeros ("0" for zero).
pub open spec fn dec_nat(n: nat) -> Seq<u8>
    decreases n,
{
    if n < 10 {
        seq![(48 + n) as u8]
    } else {
        dec_nat(n / 10).push((48 + n % 10) as u8)
    }
}

/// Decimal text of `v`, with a leading '-' when negative.
pub open spec fn dec_int(v: int) -> Seq<u8> {
    if v < 0 {
        seq![45u8] + dec_nat((-v) as nat)
    } else {
        dec_nat(v as nat)
    }
}

/// The short telemetry line: `TLM:<SAFETY>:<STALL>\n`.
pub open spec fn telemetry_short(safety: SafetyState, mask: u8) -> Seq<u8> {
    text_tlm_prefix() + safety_label_spec(safety) + seq![58u8] + stall_bits(mask) + seq![10u8]
}

/// First part of the full frame: `TLM:<SAFETY>:<STALL>:<TS>ms:<MV>mV:<MA>mA`.
pub open spec fn frame_head(safety: SafetyState, mask: u8, s: SensorFrame) -> Seq<u8> {
    text_tlm_prefix() + safety_label_spec(safety) + seq![58u8] + stall_bits(mask) + seq![58u8]
        + dec_nat(s.tick_ms as nat) + seq![109u8, 115, 58]  // "ms:"
        + dec_nat(s.batt_mv as nat) + seq![109u8, 86, 58]  // "mV:"
        + dec_int(s.batt_ma as int) + seq![109u8, 65]  // "mA"
}

/// `:<v0>:<v1>:<v2>:<v3>:<v4>:<v5>`
pub open spec fn six_fields(v: Seq<i32>) -> Seq<u8> {
    seq![58u8] + dec_int(v[0] as int) + seq![58u8] + dec_int(v[1] as int) + seq![58u8] + dec_int(
        v[2] as int,
    ) + seq![58u8] + dec_int(v[3] as int) + seq![58u8] + dec_int(v[4] as int) + seq![58u8]
        + dec_int(v[5] as int)
}

/// Last part of the full frame: `C:<DIST>mm:<EL>:<ER>\n`.
pub open spec fn frame_tail(s: SensorFrame) -> Seq<u8> {
    seq![67u8, 58] + dec_nat(s.dist_mm as nat) + seq![109u8, 109, 58]  // "C:" … "mm:"
        + dec_int(s.enc_left as int) + seq![58u8] + dec_int(s.enc_right as int) + seq![10u8]
}

/// The full telemetry frame:
/// `TLM:<SAFETY>:<STALL>:<TS>ms:<MV>mV:<MA>mA:<I0>:…:<I5>:<T>C:<B0>:…:<B5>C:<DIST>mm:<EL>:<ER>\n`.
pub open spec fn telemetry_frame(safety: SafetyState, mask: u8, s: SensorFrame) -> Seq<u8> {
    frame_head(safety, mask, s) + six_fields(s.currents@) + seq![58u8] + dec_int(s.temp_c as int)
        + seq![67u8]  // ":<T>C"
        + six_fields(s.batt_temps@) + frame_tail(s)
}

/// The exact bytes that encode a response.
pub open spec fn response_text(resp: Response) -> Seq<u8> {
    match resp {
        Response::Pong => text_pong(),
        Response::ErrEstop => text_err_estop(),
        Response::ErrUnknown => text_err_unknown(),
        Response::ErrWatchdog => text_err_wdog(),
        Response::Ack(state) => text_ack_prefix() + state_label_spec(state) + seq![10u8],
        Response::Telemetry { safety, stall_mask } => telemetry_short(safety, stall_mask),
        Response::TelemetryFrame { safety, stall_mask, sensors } => telemetry_frame(
            safety,
            stall_mask,
            sensors,
        ),
    }
}

/// Fixed texts are cut to the buffer; the others need the whole buffer room.
pub open spec fn is_fixed_text(resp: Response) -> bool {
    resp is Pong || resp is ErrEstop || resp is ErrUnknown || resp is ErrWatchdog
}

/// Longest encoded response, in bytes.
pub const MAX_RESPONSE_LEN: usize = 256;

/// `10^k`.
pub open spec fn pow10(k: nat) -> nat
    decreases k,
{
    if k == 0 {
        1
    } else {
        10 * pow10((k - 1) as nat)
    }
}

/// A number below `10^k` has at most `k` digits.
proof fn lemma_dec_nat_len(n: nat, k: nat)
    requires
        k >= 1,
        n < pow10(k),
    ensures
        dec_nat(n).len() <= k,
    decreases n,
{
    if n >= 10 {
        assert(k >= 2) by {
            if k == 1 {
                assert(pow10(1) == 10) by {
                    reveal_with_fuel(pow10, 2);
                }
            }
        }
        assert(n / 10 < pow10((k - 1) as nat)) by {
            assert(pow10(k) == 10 * pow10((k - 1) as nat));
        }
        lemma_dec_nat_len(n / 10, (k - 1) as nat);
    }
}

/// Digits of a 32-bit value: at most 10, and at most 11 characters with
/// the sign.
proof fn lemma_dec_bounds(v: int)
    requires
        -0x8000_0000 <= v < 0x1_0000_0000,
    ensures
        v >= 0 ==> dec_nat(v as nat).len() <= 10,
        dec_int(v).len() <= 11,
        0 <= v < 0x10000 ==> dec_nat(v as nat).len() <= 5,
{
    assert(pow10(5) == 100000 && pow10(10) == 10000000000) by {
        reveal_with_fuel(pow10, 11);
    }
    if v >= 0 {
        lemma_dec_nat_len(v as nat, 10);
        if v < 0x10000 {
            lemma_dec_nat_len(v as nat, 5);
        }
    } else {
        lemma_dec_nat_len((-v) as nat, 10);
    }
}

/// The six comma-separated 32-bit fields take at most 72 bytes.
proof fn lemma_six_fields_len(v: Seq<i32>)
    requires
        v.len() == 6,
    ensures
        six_fields(v).len() <= 72,
{
    lemma_dec_bounds(v[0] as int);
    lemma_dec_bounds(v[1] as int);
    lemma_dec_bounds(v[2] as int);
    lemma_dec_bounds(v[3] as int);
    lemma_dec_bounds(v[4] as int);
    lemma_dec_bounds(v[5] as int);
}

/// Every response fits in `MAX_RESPONSE_LEN` bytes.
pub proof fn lemma_response_fits(resp: Response)
    ensures
        response_text(resp).len() <= MAX_RESPONSE_LEN,
{
    match resp {
        Response::TelemetryFrame { safety, stall_mask, sensors } => {
            lemma_dec_bounds(sensors.tick_ms as int);
            lemma_dec_bounds(sensors.batt_mv as int);
            lemma_dec_bounds(sensors.batt_ma as int);
            lemma_dec_bounds(sensors.temp_c as int);
            lemma_dec_bounds(sensors.dist_mm as int);
            lemma_dec_bounds(sensors.enc_left as int);
            lemma_dec_bounds(sensors.enc_right as int);
            lemma_six_fields_len(sensors.currents@);
            lemma_six_fields_len(sensors.batt_temps@);
            assert(safety_label_spec(safety).len() <= 6);
        },
        Response::Telemetry { safety, stall_mask } => {
            assert(safety_label_spec(safety).len() <= 6);
        },
        _ => {},
    }
}

// ─── Parsing ─────────────────────────────────────────────────────────────────

pub open spec fn is_digit(b: u8) -> bool {
    48 <= b <= 57
}

pub open spec fn all_digits(s: Seq<u8>) -> bool {
    forall|i: int| 0 <= i < s.len() ==> is_digit(#[trigger] s[i])
}

/// Value of a string of decimal digits, most significant first.
pub open spec fn digits_value(s: Seq<u8>) -> int
    decreases s.len(),
{
    if s.len() == 0 {
        0
    } else {
        digits_value(s.drop_last()) * 10 + (s.last() - 48)
    }
}

/// `s` is an optional '-' followed by one to three decimal digits; its value.
pub open spec fn parse_i16_spec(s: Seq<u8>) -> Option<i16> {
    if s.len() == 0 {
        None
    } else {
        let neg = s[0] == 45u8;
        let digits = if neg {
            s.skip(1)
        } else {
            s
        };
        if digits.len() == 0 || digits.len() > 3 || !all_digits(digits) {
            None
        } else if neg {
            Some((-digits_value(digits)) as i16)
        } else {
            Some(digits_value(digits) as i16)
        }
    }
}

/// `i` is the position of the first ':' of `s`.
pub open spec fn first_colon_at(s: Seq<u8>, i: int) -> bool {
    &&& 0 <= i < s.len()
    &&& s[i] == 58u8
    &&& forall|j: int| 0 <= j < i ==> #[trigger] s[j] != 58u8
}

/// `<left>:<right>`, split at the first ':'.
pub open spec fn parse_explore_spec(s: Seq<u8>) -> Option<Command> {
    if exists|i: int| first_colon_at(s, i) {
        let i = choose|i: int| first_colon_at(s, i);
        match (parse_i16_spec(s.take(i)), parse_i16_spec(s.skip(i + 1))) {
            (Some(left), Some(right)) => Some(Command::Explore { left, right }),
            _ => None,
        }
    } else {
        None
    }
}

/// `L` or `R`.
pub open spec fn parse_avoid_spec(s: Seq<u8>) -> Option<Command> {
    if s == seq![76u8] {
        Some(Command::Avoid(AvoidDir::Left))
    } else if s == seq![82u8] {
        Some(Command::Avoid(AvoidDir::Right))
    } else {
        None
    }
}

pub open spec fn has_prefix(s: Seq<u8>, p: Seq<u8>) -> bool {
    p.len() <= s.len() && s.take(p.len() as int) == p
}

/// The command that a received line encodes, if any.
pub open spec fn parse_command_spec(s: Seq<u8>) -> Option<Command> {
    if s == text_ping() {
        Some(Command::Ping)
    } else if s == text_stb() {
        Some(Command::Standby)
    } else if s == text_ret() {
        Some(Command::Retreat)
    } else if s == text_flt() {
        Some(Command::Fault)
    } else if s == text_rst() {
        Some(Command::Reset)
    } else if has_prefix(s, text_exp_prefix()) {
        parse_explore_spec(s.skip(4))
    } else if has_prefix(s, text_avd_prefix()) {
        parse_avoid_spec(s.skip(4))
    } else {
        None
    }
}

fn bytes_eq(a: &[u8], b: &[u8]) -> (r: bool)
    ensures
        r == (a@ == b@),
{
    if a.len() != b.len() {
        return false;
    }
    let mut i: usize = 0;
    while i < a.len()
        invariant
            a@.len() == b@.len(),
            0 <= i <= a@.len(),
            forall|j: int| 0 <= j < i ==> a@[j] == b@[j],
        decreases a@.len() - i,
    {
        if a[i] != b[i] {
            return false;
        }
        i = i + 1;
    }
    assert(a@ =~= b@);
    true
}

fn starts_with(a: &[u8], p: &[u8]) -> (r: bool)
    ensures
        r == has_prefix(a@, p@),
{
    if p.len() > a.len() {
        return false;
    }
    let mut i: usize = 0;
    while i < p.len()
        invariant
            p@.len() <= a@.len(),
            0 <= i <= p@.len(),
            forall|j: int| 0 <= j < i ==> a@[j] == p@[j],
        decreases p@.len() - i,
    {
        if a[i] != p[i] {
            assert(a@.take(p@.len() as int)[i as int] != p@[i as int]);
            return false;
        }
        i = i + 1;
    }
    assert(a@.take(p@.len() as int) =~= p@);
    true
}

/// Decodes one received line (without its terminator) into a command.
pub fn parse_command(bytes: &[u8]) -> (r: Option<Command>)
    ensures
        r == parse_command_spec(bytes@),
{
    if bytes_eq(bytes, &[80u8, 73, 78, 71]) {
        Some(Command::Ping)
    } else if bytes_eq(bytes, &[83u8, 84, 66]) {
        Some(Command::Standby)
    } else if bytes_eq(bytes, &[82u8, 69, 84]) {
        Some(Command::Retreat)
    } else if bytes_eq(bytes, &[70u8, 76, 84]) {
        Some(Command::Fault)
    } else if bytes_eq(bytes, &[82u8, 83, 84]) {
        Some(Command::Reset)
    } else if starts_with(bytes, &[69u8, 88, 80, 58]) {
        parse_explore(&bytes[4..bytes.len()])
    } else if starts_with(bytes, &[65u8, 86, 68, 58]) {
        parse_avoid(&bytes[4..bytes.len()])
    } else {
        None
    }
}

fn parse_explore(bytes: &[u8]) -> (r: Option<Command>)
    ensures
        r == parse_explore_spec(bytes@),
{
    let mut colon: usize = 0;
    while colon < bytes.len() && bytes[colon] != 58u8
        invariant
            0 <= colon <= bytes@.len(),
            forall|j: int| 0 <= j < colon ==> #[trigger] bytes@[j] != 58u8,
        decreases bytes@.len() - colon,
    {
        colon = colon + 1;
    }
    if colon == bytes.len() {
        assert(!exists|i: int| first_colon_at(bytes@, i));
        return None;
    }
    assert(first_colon_at(bytes@, colon as int));
    assert(forall|i: int| first_colon_at(bytes@, i) ==> i == colon);
    let left = parse_i16(&bytes[0..colon]);
    let right = parse_i16(&bytes[colon + 1..bytes.len()]);
    assert(bytes@.subrange(0, colon as int) =~= bytes@.take(colon as int));
    assert(bytes@.subrange(colon + 1, bytes@.len() as int) =~= bytes@.skip(colon + 1));
    match (left, right) {
        (Some(left), Some(right)) => Some(Command::Explore { left, right }),
        _ => None,
    }
}

fn parse_avoid(bytes: &[u8]) -> (r: Option<Command>)
    ensures
        r == parse_avoid_spec(bytes@),
{
    let left: [u8; 1] = [76u8];
    let right: [u8; 1] = [82u8];
    assert(left@ =~= seq![76u8]);
    assert(right@ =~= seq![82u8]);
    if bytes_eq(bytes, &left) {
        Some(Command::Avoid(AvoidDir::Left))
    } else if bytes_eq(bytes, &right) {
        Some(Command::Avoid(AvoidDir::Right))
    } else {
        None
    }
}

proof fn lemma_digits_value_bound(s: Seq<u8>)
    requires
        forall|i: int| 0 <= i < s.len() ==> is_digit(#[trigger] s[i]),
    ensures
        0 <= digits_value(s),
        s.len() <= 3 ==> digits_value(s) <= 999,
        s.len() <= 2 ==> digits_value(s) <= 99,
        s.len() <= 1 ==> digits_value(s) <= 9,
    decreases s.len(),
{
    if s.len() > 0 {
        let t = s.drop_last();
        assert forall|i: int| 0 <= i < t.len() implies is_digit(#[trigger] t[i]) by {
            assert(t[i] == s[i]);
        }
        lemma_digits_value_bound(t);
        assert(is_digit(s[s.len() - 1]));
    }
}

fn parse_i16(bytes: &[u8]) -> (r: Option<i16>)
    ensures
        r == parse_i16_spec(bytes@),
{
    if bytes.len() == 0 {
        return None;
    }
    let neg = bytes[0] == 45u8;
    let digits: &[u8] = if neg {
        &bytes[1..bytes.len()]
    } else {
        bytes
    };
    assert(neg ==> digits@ =~= bytes@.skip(1));
    if digits.len() == 0 || digits.len() > 3 {
        return None;
    }
    let mut val: i16 = 0;
    let mut k: usize = 0;
    while k < digits.len()
        invariant
            digits@ == (if neg {
                bytes@.skip(1)
            } else {
                bytes@
            }),
            bytes@.len() > 0,
            neg == (bytes@[0] == 45u8),
            1 <= digits@.len() <= 3,
            0 <= k <= digits@.len(),
            forall|j: int| 0 <= j < k ==> is_digit(#[trigger] digits@[j]),
            val == digits_value(digits@.take(k as int)),
            0 <= val <= 999,
        decreases digits@.len() - k,
    {
        let b = digits[k];
        if b < 48u8 || b > 57u8 {
            proof {
                assert(!is_digit(digits@[k as int]));
            }
            return None;
        }
        proof {
            let t = digits@.take(k + 1);
            assert(t.drop_last() =~= digits@.take(k as int));
            assert forall|i: int| 0 <= i < t.len() implies is_digit(#[trigger] t[i]) by {
                assert(t[i] == digits@[i]);
            }
            lemma_digits_value_bound(t);
        }
        val = val * 10 + (b - 48u8) as i16;
        k = k + 1;
    }
    assert(digits@.take(digits@.len() as int) =~= digits@);
    Some(if neg { -val } else { val })
}

// ─── Explore commands: encoding and parsing agree ────────────────────────────

/// The decimal text of `n` is made of digits and reads back as `n`.
proof fn lemma_dec_nat_digits(n: nat)
    ensures
        dec_nat(n).len() >= 1,
        all_digits(dec_nat(n)),
        digits_value(dec_nat(n)) == n,
    decreases n,
{
    let t = dec_nat(n);
    if n >= 10 {
        lemma_dec_nat_digits(n / 10);
        assert(t.drop_last() =~= dec_nat(n / 10));
        assert(t.last() == 48 + n % 10);
        assert(digits_value(t) == digits_value(dec_nat(n / 10)) * 10 + (t.last() - 48));
        assert forall|i: int| 0 <= i < t.len() implies is_digit(#[trigger] t[i]) by {
            if i < t.len() - 1 {
                assert(t[i] == dec_nat(n / 10)[i]);
            }
        }
    } else {
        assert(t.drop_last() =~= Seq::<u8>::empty());
        assert(digits_value(t.drop_last()) == 0);
        assert(digits_value(t) == digits_value(t.drop_last()) * 10 + (t.last() - 48));
    }
}

/// A decimal text of a number in −999 … 999 contains no ':' and parses
/// back to the number.
proof fn lemma_dec_int_parses(v: int)
    requires
        -999 <= v <= 999,
    ensures
        parse_i16_spec(dec_int(v)) == Some(v as i16),
        forall|j: int| 0 <= j < dec_int(v).len() ==> #[trigger] dec_int(v)[j] != 58u8,
{
    let m: nat = if v < 0 {
        (-v) as nat
    } else {
        v as nat
    };
    lemma_dec_nat_digits(m);
    assert(pow10(3) == 1000) by {
        reveal_with_fuel(pow10, 4);
    }
    lemma_dec_nat_len(m, 3);
    let d = dec_nat(m);
    assert(is_digit(d[0]));
    if v < 0 {
        assert(dec_int(v).skip(1) =~= d);
        assert forall|j: int| 0 <= j < dec_int(v).len() implies #[trigger] dec_int(v)[j] != 58u8 by {
            if j > 0 {
                assert(dec_int(v)[j] == d[j - 1]);
                assert(is_digit(d[j - 1]));
            }
        }
    } else {
        assert forall|j: int| 0 <= j < dec_int(v).len() implies #[trigger] dec_int(v)[j] != 58u8 by {
            assert(is_digit(d[j]));
        }
    }
}

/// The value of a parsed speed has at most three digits.
proof fn lemma_parse_i16_bound(s: Seq<u8>)
    requires
        parse_i16_spec(s) is Some,
    ensures
        -999 <= parse_i16_spec(s)->0 <= 999,
{
    let digits = if s[0] == 45u8 {
        s.skip(1)
    } else {
        s
    };
    lemma_digits_value_bound(digits);
}

/// `<l>:<r>` with both speeds in −999 … 999 parses to those speeds.
proof fn lemma_explore_body(l: int, r: int)
    requires
        -999 <= l <= 999,
        -999 <= r <= 999,
    ensures
        parse_explore_spec(dec_int(l) + seq![58u8] + dec_int(r)) == Some(
            Command::Explore { left: l as i16, right: r as i16 },
        ),
{
    lemma_dec_int_parses(l);
    lemma_dec_int_parses(r);
    let a = dec_int(l);
    let s = a + seq![58u8] + dec_int(r);
    let i = a.len() as int;
    assert forall|j: int| 0 <= j < i implies #[trigger] s[j] != 58u8 by {
        assert(s[j] == a[j]);
    }
    assert(first_colon_at(s, i));
    let c = choose|k: int| first_colon_at(s, k);
    assert(c == i) by {
        if c < i {
            assert(s[c] == a[c]);
        } else if c > i {
            assert(s[i] == 58u8);
        }
    }
    assert(s.take(i) =~= a);
    assert(s.skip(i + 1) =~= dec_int(r));
}

/// An `EXP:<l>:<r>` line, each speed in −999 … 999 written in plain
/// decimal (a '-' only for negatives, no leading zeros), parses back to
/// the explore command with those speeds.
pub proof fn law_explore_round_trip(l: i16, r: i16)
    requires
        -999 <= l <= 999,
        -999 <= r <= 999,
    ensures
        parse_command_spec(text_exp_prefix() + dec_int(l as int) + seq![58u8] + dec_int(r as int))
            == Some(Command::Explore { left: l, right: r }),
{
    let body = dec_int(l as int) + seq![58u8] + dec_int(r as int);
    let s = text_exp_prefix() + body;
    lemma_explore_body(l as int, r as int);
    assert(s[0] == 69u8);
    assert(s != text_ping() && s != text_stb() && s != text_ret() && s != text_flt() && s
        != text_rst()) by {
        assert(text_ping()[0] != 69u8 && text_stb()[0] != 69u8 && text_ret()[0] != 69u8
            && text_flt()[0] != 69u8 && text_rst()[0] != 69u8);
    }
    assert(s.take(4) =~= text_exp_prefix());
    assert(s.skip(4) =~= body);
    assert(has_prefix(s, text_exp_prefix()));
    assert(parse_command_spec(s) == parse_explore_spec(body));
    assert(text_exp_prefix() + dec_int(l as int) + seq![58u8] + dec_int(r as int) =~= s);
}

/// A line that parses to an explore command starts with `EXP:`, and both
/// of its speeds lie in −999 … 999.
pub proof fn law_explore_speeds_bounded(s: Seq<u8>, left: i16, right: i16)
    requires
        parse_command_spec(s) == Some(Command::Explore { left, right }),
    ensures
        has_prefix(s, text_exp_prefix()),
        -999 <= left <= 999,
        -999 <= right <= 999,
{
    if !has_prefix(s, text_exp_prefix()) {
        assert(parse_command_spec(s) != Some(Command::Explore { left, right }));
    }
    let body = s.skip(4);
    let i = choose|k: int| first_colon_at(body, k);
    lemma_parse_i16_bound(body.take(i));
    lemma_parse_i16_bound(body.skip(i + 1));
}

// ─── Encoding ────────────────────────────────────────────────────────────────

fn push_text(out: &mut Vec<u8>, s: &[u8])
    ensures
        final(out)@ == old(out)@ + s@,
{
    let mut i: usize = 0;
    while i < s.len()
        invariant
            0 <= i <= s@.len(),
            out@ == old(out)@ + s@.take(i as int),
        decreases s@.len() - i,
    {
        out.push(s[i]);
        i = i + 1;
        assert(s@.take(i as int) =~= s@.take(i - 1).push(s@[i - 1]));
    }
    assert(s@.take(s@.len() as int) =~= s@);
}

/// Appends the decimal digits of `val` (the recursion mirrors `dec_nat`).
fn write_u32(out: &mut Vec<u8>, val: u32)
    ensures
        final(out)@ == old(out)@ + dec_nat(val as nat),
    decreases val,
{
    if val >= 10 {
        write_u32(out, val / 10);
    }
    out.push(48u8 + (val % 10) as u8);
    proof {
        if val >= 10 {
            assert(old(out)@ + dec_nat(val as nat) =~= (old(out)@ + dec_nat((val / 10) as nat)).push(
                (48 + val % 10) as u8,
            ));
        } else {
            assert(old(out)@ + dec_nat(val as nat) =~= old(out)@.push((48 + val) as u8));
        }
    }
}

/// Appends the decimal text of `val`, '-' first when negative.
fn write_i32(out: &mut Vec<u8>, val: i32)
    ensures
        final(out)@ == old(out)@ + dec_int(val as int),
{
    if val < 0 {
        out.push(45u8);
        let mag: u32 = if val == i32::MIN {
            2147483648u32
        } else {
            (-val) as u32
        };
        write_u32(out, mag);
        assert(old(out)@ + dec_int(val as int) =~= old(out)@.push(45u8) + dec_nat(mag as nat));
    } else {
        write_u32(out, val as u32);
    }
}

fn push_state_label(out: &mut Vec<u8>, state: RoverState)
    ensures
        final(out)@ == old(out)@ + state_label_spec(state),
{
    match state {
        RoverState::Standby => push_text(out, &[83u8, 84, 66]),
        RoverState::Explore => push_text(out, &[69u8, 88, 80]),
        RoverState::Avoid => push_text(out, &[65u8, 86, 68]),
        RoverState::Retreat => push_text(out, &[82u8, 69, 84]),
        RoverState::Fault => push_text(out, &[70u8, 76, 84]),
        RoverState::Safe => push_text(out, &[83u8, 70, 69]),
    }
}

fn push_safety_label(out: &mut Vec<u8>, safety: SafetyState)
    ensures
        final(out)@ == old(out)@ + safety_label_spec(safety),
{
    match safety {
        SafetyState::Normal => push_text(out, &[78u8, 79, 82, 77, 65, 76]),
        SafetyState::Warn => push_text(out, &[87u8, 65, 82, 78]),
        SafetyState::Limit => push_text(out, &[76u8, 73, 77, 73, 84]),
        SafetyState::FaultStall => push_text(out, &[70u8, 65, 85, 76, 84]),
    }
}

fn push_mask_char(out: &mut Vec<u8>, mask: u8, b: u8)
    requires
        b < 8,
    ensures
        final(out)@ == old(out)@.push(mask_char(mask, b)),
{
    if (mask >> b) & 1u8 == 1u8 {
        out.push(49u8);
    } else {
        out.push(48u8);
    }
}

fn push_stall_bits(out: &mut Vec<u8>, mask: u8)
    ensures
        final(out)@ == old(out)@ + stall_bits(mask),
{
    push_mask_char(out, mask, 5);
    push_mask_char(out, mask, 4);
    push_mask_char(out, mask, 3);
    push_mask_char(out, mask, 2);
    push_mask_char(out, mask, 1);
    push_mask_char(out, mask, 0);
    assert(final(out)@ =~= old(out)@ + stall_bits(mask));
}

/// Copies `text` to the front of `buf` and returns that part of `buf`.
fn emit<'a>(buf: &'a mut [u8], text: &Vec<u8>) -> (out: &'a [u8])
    requires
        text@.len() <= old(buf)@.len(),
    ensures
        out@ == text@,
        final(buf)@.len() == old(buf)@.len(),
        final(buf)@.subrange(0, out@.len() as int) == out@,
        final(buf)@.skip(out@.len() as int) == old(buf)@.skip(out@.len() as int),
{
    let mut i: usize = 0;
    while i < text.len()
        invariant
            text@.len() <= buf@.len(),
            buf@.len() == old(buf)@.len(),
            0 <= i <= text@.len(),
            forall|j: int| 0 <= j < i ==> buf@[j] == text@[j],
            forall|j: int| i <= j < buf@.len() ==> buf@[j] == old(buf)@[j],
        decreases text@.len() - i,
    {
        buf[i] = text[i];
        i = i + 1;
    }
    assert(buf@.subrange(0, text@.len() as int) =~= text@);
    assert(buf@.skip(text@.len() as int) =~= old(buf)@.skip(text@.len() as int));
    let out: &[u8] = &buf[0..text.len()];
    assert(out@ =~= text@);
    out
}

/// Copies as much of `src` as fits in `buf`.
fn copy_literal<'a>(buf: &'a mut [u8], src: &[u8]) -> (out: &'a [u8])
    ensures
        out@ == src@.take(if src@.len() <= old(buf)@.len() {
            src@.len() as int
        } else {
            old(buf)@.len() as int
        }),
        final(buf)@.len() == old(buf)@.len(),
        final(buf)@.subrange(0, out@.len() as int) == out@,
        final(buf)@.skip(out@.len() as int) == old(buf)@.skip(out@.len() as int),
{
    let len = if src.len() <= buf.len() {
        src.len()
    } else {
        buf.len()
    };
    let mut i: usize = 0;
    while i < len
        invariant
            len <= buf@.len(),
            len <= src@.len(),
            buf@.len() == old(buf)@.len(),
            0 <= i <= len,
            forall|j: int| 0 <= j < i ==> buf@[j] == src@[j],
            forall|j: int| i <= j < buf@.len() ==> buf@[j] == old(buf)@[j],
        decreases len - i,
    {
        buf[i] = src[i];
        i = i + 1;
    }
    assert(buf@.subrange(0, len as int) =~= src@.take(len as int));
    assert(buf@.skip(len as int) =~= old(buf)@.skip(len as int));
    let out: &[u8] = &buf[0..len];
    assert(out@ =~= src@.take(len as int));
    out
}

fn state_label(state: RoverState) -> (r: Vec<u8>)
    ensures
        r@ == state_label_spec(state),
{
    let mut v: Vec<u8> = Vec::new();
    push_state_label(&mut v, state);
    assert(v@ =~= state_label_spec(state));
    v
}

fn format_ack<'a>(buf: &'a mut [u8], label: &[u8]) -> (out: &'a [u8])
    requires
        text_ack_prefix().len() + label@.len() + 1 <= old(buf)@.len(),
    ensures
        out@ == text_ack_prefix() + label@ + seq![10u8],
        final(buf)@.len() == old(buf)@.len(),
        final(buf)@.subrange(0, out@.len() as int) == out@,
        final(buf)@.skip(out@.len() as int) == old(buf)@.skip(out@.len() as int),
{
    let mut v: Vec<u8> = Vec::new();
    push_text(&mut v, &[65u8, 67, 75, 58]);
    push_text(&mut v, label);
    v.push(10u8);
    assert(v@ =~= text_ack_prefix() + label@ + seq![10u8]);
    emit(buf, &v)
}

fn build_tlm(safety: SafetyState, stall_mask: u8) -> (v: Vec<u8>)
    ensures
        v@ == telemetry_short(safety, stall_mask),
{
    let mut v: Vec<u8> = Vec::new();
    push_text(&mut v, &[84u8, 76, 77, 58]);
    push_safety_label(&mut v, safety);
    v.push(58u8);
    push_stall_bits(&mut v, stall_mask);
    v.push(10u8);
    assert(v@ =~= telemetry_short(safety, stall_mask));
    v
}

fn format_tlm<'a>(buf: &'a mut [u8], safety: SafetyState, stall_mask: u8) -> (out: &'a [u8])
    requires
        telemetry_short(safety, stall_mask).len() <= old(buf)@.len(),
    ensures
        out@ == telemetry_short(safety, stall_mask),
        final(buf)@.len() == old(buf)@.len(),
        final(buf)@.subrange(0, out@.len() as int) == out@,
        final(buf)@.skip(out@.len() as int) == old(buf)@.skip(out@.len() as int),
{
    let v = build_tlm(safety, stall_mask);
    emit(buf, &v)
}

fn push_frame_head(out: &mut Vec<u8>, safety: SafetyState, stall_mask: u8, s: &SensorFrame)
    ensures
        final(out)@ == old(out)@ + frame_head(safety, stall_mask, *s),
{
    let ghost start = out@;
    push_text(out, &[84u8, 76, 77, 58]);
    push_safety_label(out, safety);
    push_text(out, &[58u8]);
    push_stall_bits(out, stall_mask);
    push_text(out, &[58u8]);
    write_u32(out, s.tick_ms);
    push_text(out, &[109u8, 115, 58]);
    write_u32(out, s.batt_mv as u32);
    push_text(out, &[109u8, 86, 58]);
    write_i32(out, s.batt_ma);
    push_text(out, &[109u8, 65]);
    assert(out@ =~= start + frame_head(safety, stall_mask, *s));
}

fn push_six_fields(out: &mut Vec<u8>, v: &[i32; 6])
    ensures
        final(out)@ == old(out)@ + six_fields(v@),
{
    let ghost start = out@;
    push_text(out, &[58u8]);
    write_i32(out, v[0]);
    push_text(out, &[58u8]);
    write_i32(out, v[1]);
    push_text(out, &[58u8]);
    write_i32(out, v[2]);
    push_text(out, &[58u8]);
    write_i32(out, v[3]);
    push_text(out, &[58u8]);
    write_i32(out, v[4]);
    push_text(out, &[58u8]);
    write_i32(out, v[5]);
    assert(out@ =~= start + six_fields(v@));
}

fn push_frame_tail(out: &mut Vec<u8>, s: &SensorFrame)
    ensures
        final(out)@ == old(out)@ + frame_tail(*s),
{
    let ghost start = out@;
    push_text(out, &[67u8, 58]);
    write_u32(out, s.dist_mm as u32);
    push_text(out, &[109u8, 109, 58]);
    write_i32(out, s.enc_left);
    push_text(out, &[58u8]);
    write_i32(out, s.enc_right);
    push_text(out, &[10u8]);
    assert(out@ =~= start + frame_tail(*s));
}

fn build_tlm_frame(safety: SafetyState, stall_mask: u8, s: &SensorFrame) -> (v: Vec<u8>)
    ensures
        v@ == telemetry_frame(safety, stall_mask, *s),
{
    let mut v: Vec<u8> = Vec::new();
    push_frame_head(&mut v, safety, stall_mask, s);
    push_six_fields(&mut v, &s.currents);
    push_text(&mut v, &[58u8]);
    write_i32(&mut v, s.temp_c);
    push_text(&mut v, &[67u8]);
    push_six_fields(&mut v, &s.batt_temps);
    push_frame_tail(&mut v, s);
    assert(v@ =~= telemetry_frame(safety, stall_mask, *s));
    v
}

fn format_tlm_frame<'a>(
    buf: &'a mut [u8],
    safety: SafetyState,
    stall_mask: u8,
    sensors: &SensorFrame,
) -> (out: &'a [u8])
    requires
        telemetry_frame(safety, stall_mask, *sensors).len() <= old(buf)@.len(),
    ensures
        out@ == telemetry_frame(safety, stall_mask, *sensors),
        final(buf)@.len() == old(buf)@.len(),
        final(buf)@.subrange(0, out@.len() as int) == out@,
        final(buf)@.skip(out@.len() as int) == old(buf)@.skip(out@.len() as int),
{
    let v = build_tlm_frame(safety, stall_mask, sensors);
    emit(buf, &v)
}

/// Encodes `resp` at the front of `buf` and returns the encoded bytes.
/// Fixed texts (`PONG`, `ERR:…`) are cut to the buffer's length; an
/// acknowledgement or a telemetry line needs room for all of its bytes.
pub fn format_response<'a>(resp: Response, buf: &'a mut [u8]) -> (out: &'a [u8])
    requires
        !is_fixed_text(resp) ==> response_text(resp).len() <= old(buf)@.len(),
    ensures
        is_fixed_text(resp) ==> out@ == response_text(resp).take(
            if response_text(resp).len() <= old(buf)@.len() {
                response_text(resp).len() as int
            } else {
                old(buf)@.len() as int
            },
        ),
        !is_fixed_text(resp) ==> out@ == response_text(resp),
        final(buf)@.len() == old(buf)@.len(),
        final(buf)@.subrange(0, out@.len() as int) == out@,
        final(buf)@.skip(out@.len() as int) == old(buf)@.skip(out@.len() as int),
{
    match resp {
        Response::Pong => copy_literal(buf, &[80u8, 79, 78, 71, 10]),
        Response::ErrEstop => copy_literal(buf, &[69u8, 82, 82, 58, 69, 83, 84, 79, 80, 10]),
        Response::ErrUnknown => copy_literal(
            buf,
            &[69u8, 82, 82, 58, 85, 78, 75, 78, 79, 87, 78, 10],
        ),
        Response::ErrWatchdog => copy_literal(buf, &[69u8, 82, 82, 58, 87, 68, 79, 71, 10]),
        Response::Ack(state) => {
            let label = state_label(state);
            format_ack(buf, label.as_slice())
        },
        Response::Telemetry { safety, stall_mask } => format_tlm(buf, safety, stall_mask),
        Response::TelemetryFrame { safety, stall_mask, sensors } => format_tlm_frame(
            buf,
            safety,
            stall_mask,
            &sensors,
        ),
    }
}

} // verus!
