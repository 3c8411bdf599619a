//! Segment LCD panel driver logic (4 COM x 44 SEG): digit and symbol
//! encoding, number formatting, page rendering and automatic rotation.
//! The frame buffer is written to the LCD controller by the application.
use vstd::prelude::*;
use vstd::string::StringSliceAdditionalSpecFns;

use crate::hal::LcdDriver;
use crate::lcd_content::{LcdBias, LcdContent, LcdDisplayMode};

pub mod symbol;

verus! {

/* ---------------- segment patterns ---------------- */

/// Seven-segment patterns of the values 0..15 (10..14 blank, 15 minus).
/// Bit 0 is the decimal point, bits 1..7 the segments a..g.
pub const SEGMENT_PATTERNS: [u8; 16] = [
    0x7E, 0x30, 0xB6, 0x9E, 0xCC, 0xDA, 0xFA, 0x0E,
    0x7F, 0xDE, 0x00, 0x00, 0x00, 0x00, 0x00, 0x80,
];

/// Letter patterns A..Z (approximations where seven segments cannot draw
/// the letter), used for unit prefixes.
pub const LETTER_PATTERNS: [u8; 26] = [
    0x77, 0x7C, 0x39, 0x5E, 0x79, 0x71, 0x3D, 0x76, 0x30, 0x1E, 0x38, 0x1C, 0x37,
    0x54, 0x3F, 0x73, 0x50, 0x7D, 0x5B, 0x78, 0x3E, 0x3C, 0x64, 0x64, 0x6E, 0x5B,
];

/// Number of segment lines driven.
pub const SEG_COUNT: u64 = 44;

/// Frame-buffer value with every segment of a COM line on.
pub const ALL_SEGMENTS: u64 = 0xFFF_FFFF_FFFF;

/// Pattern of a digit value (values past the table are blank).
pub open spec fn segment_pattern(v: u8) -> u8 {
    if v < 16 { SEGMENT_PATTERNS[v as int] } else { 0 }
}

/// Frame-buffer bits of digit `v` (with decimal point `dp`) at position
/// `idx`: eight segment lines from `8 * idx`; positions past the panel
/// (from 5 on) show nothing.
pub open spec fn digit_bits(idx: u8, v: u8, dp: bool) -> u64 {
    let p = if dp { segment_pattern(v) | 1u8 } else { segment_pattern(v) };
    if idx <= 4 { (p as u64) << (8 * idx) } else { 0 }
}

/// LCD panel symbols.
#[derive(Clone, Copy, Debug, PartialEq, Eq, Structural)]
pub enum LcdSymbol {
    PhaseA,
    PhaseB,
    PhaseC,
    UnitV,
    UnitA,
    UnitW,
    UnitVar,
    UnitVA,
    UnitHz,
    UnitPF,
    UnitKWh,
    UnitKVarh,
    Forward,
    Reverse,
    RS485,
    IR,
    LoRa,
    Cellular,
    Alarm,
    Tariff,
    Battery,
    Dot,
    Negative,
}

/// Segment line of a symbol (44, past the panel, for `Negative`).
pub open spec fn symbol_seg(s: LcdSymbol) -> u64 {
    match s {
        LcdSymbol::PhaseA => 40,
        LcdSymbol::PhaseB => 41,
        LcdSymbol::PhaseC => 42,
        LcdSymbol::UnitV => 32,
        LcdSymbol::UnitA => 33,
        LcdSymbol::UnitW => 34,
        LcdSymbol::UnitVar => 35,
        LcdSymbol::UnitVA => 36,
        LcdSymbol::UnitHz => 37,
        LcdSymbol::UnitPF => 38,
        LcdSymbol::UnitKWh => 39,
        LcdSymbol::UnitKVarh => 40,
        LcdSymbol::Forward => 41,
        LcdSymbol::Reverse => 42,
        LcdSymbol::RS485 => 32,
        LcdSymbol::IR => 33,
        LcdSymbol::LoRa => 34,
        LcdSymbol::Cellular => 35,
        LcdSymbol::Alarm => 36,
        LcdSymbol::Tariff => 37,
        LcdSymbol::Battery => 38,
        LcdSymbol::Dot => 43,
        LcdSymbol::Negative => 44,
    }
}

/// Frame-buffer bits a symbol turns on (none when switched off: symbols
/// are only ever set, a cleared frame removes them).
pub open spec fn symbol_bits(s: LcdSymbol, on: bool) -> u64 {
    if on && symbol_seg(s) < 44 { 1u64 << symbol_seg(s) } else { 0 }
}

/* ---------------- number decomposition ---------------- */

/// 10 to the power `k`.
pub open spec fn pow10(k: nat) -> nat
    decreases k,
{
    if k == 0 { 1 } else { 10 * pow10((k - 1) as nat) }
}

/// Digit `i` (0 = leftmost) of `val` right-aligned in eight positions:
/// blank (10) left of the most significant digit; only the lowest eight
/// decimal digits are shown.
pub open spec fn number_digit(val: nat, i: int) -> u8 {
    let q = val / pow10((7 - i) as nat);
    if i == 7 || q > 0 { (q % 10) as u8 } else { 10u8 }
}

/// First position from `i` holding a digit other than 0 or blank, or 0
/// when there is none.
pub open spec fn first_significant(val: nat, i: int) -> int
    decreases 8 - i,
{
    if i >= 8 {
        0
    } else if number_digit(val, i) != 0 && number_digit(val, i) != 10 {
        i
    } else {
        first_significant(val, i + 1)
    }
}

/// First position from `i` holding a digit (not blank); position 7
/// always does.
pub open spec fn first_digit(val: nat, i: int) -> int
    decreases 8 - i,
{
    if i >= 7 {
        7
    } else if number_digit(val, i) != 10 {
        i
    } else {
        first_digit(val, i + 1)
    }
}

/// Magnitude of a 32-bit value.
pub open spec fn abs_i32(value: i32) -> nat {
    if value < 0 { (-value) as nat } else { value as nat }
}

/// First position written for `value`: its most significant digit (the
/// leading blanks are skipped); for a negative number the first digit
/// other than 0.
pub open spec fn number_start(value: i32) -> int {
    if value < 0 {
        let f = first_significant(abs_i32(value), 0);
        if f > 0 { f - 1 } else { 0 }
    } else {
        first_digit(abs_i32(value), 0)
    }
}

/// Position of the minus sign of `value`: just before its highest
/// significant digit, when it is negative and that digit is not the first
/// of the eight; -1 when there is none.
pub open spec fn sign_pos(value: i32) -> int {
    let f = first_significant(abs_i32(value), 0);
    if value < 0 && f > 0 { f - 1 } else { -1 }
}

/// Code shown at position `i` for `value`: the minus sign (code 15) at
/// `sign_pos`, else its digit.
pub open spec fn shown_code(value: i32, i: int) -> u8 {
    if i == sign_pos(value) { 15u8 } else { number_digit(abs_i32(value), i) }
}

/// Whether position `i` carries the decimal point for `dp_pos` digits
/// after the point (0 = no point).
pub open spec fn number_dp(dp_pos: u8, i: int) -> bool {
    dp_pos > 0 && 7 - i == dp_pos
}

/// Frame-buffer bits of positions `number_start(value) .. upto` of
/// `value` written from digit `start_digit` on.
pub open spec fn number_bits(start_digit: u8, value: i32, dp_pos: u8, upto: int) -> u64
    decreases upto,
{
    let s = number_start(value);
    if upto <= s || upto <= 0 {
        0
    } else {
        number_bits(start_digit, value, dp_pos, upto - 1) | digit_bits(
            (start_digit + (upto - 1 - s)) as u8,
            shown_code(value, upto - 1),
            number_dp(dp_pos, upto - 1),
        )
    }
}

proof fn lemma_pow10_positive(k: nat)
    ensures
        pow10(k) >= 1,
    decreases k,
{
    if k > 0 {
        lemma_pow10_positive((k - 1) as nat);
    }
}

proof fn lemma_pow10_mono(a: nat, b: nat)
    requires
        a <= b,
    ensures
        pow10(a) <= pow10(b),
    decreases b,
{
    if a < b {
        lemma_pow10_mono(a, (b - 1) as nat);
        lemma_pow10_positive((b - 1) as nat);
    }
}

/// Dividing by ten once more divides by the next power of ten.
proof fn lemma_div_pow10_step(val: nat, k: nat)
    ensures
        (val / pow10(k)) / 10 == val / pow10(k + 1),
{
    lemma_pow10_positive(k);
    vstd::arithmetic::div_mod::lemma_div_denominator(val as int, pow10(k) as int, 10);
    assert(pow10(k + 1) == pow10(k) * 10);
}

/// Once the quotient by a power of ten is zero, it stays zero.
proof fn lemma_div_pow10_zero(val: nat, a: nat, b: nat)
    requires
        a <= b,
        val / pow10(a) == 0,
    ensures
        val / pow10(b) == 0,
{
    lemma_pow10_positive(a);
    lemma_pow10_mono(a, b);
    vstd::arithmetic::div_mod::lemma_fundamental_div_mod(val as int, pow10(a) as int);
    vstd::arithmetic::div_mod::lemma_mod_pos_bound(val as int, pow10(a) as int);
    vstd::arithmetic::div_mod::lemma_basic_div(val as int, pow10(b) as int);
}

proof fn lemma_or_zero(a: u64)
    ensures
        a | 0u64 == a,
{
    assert(a | 0u64 == a) by (bit_vector);
}

proof fn lemma_or_assoc(a: u64, b: u64, c: u64)
    ensures
        (a | b) | c == a | (b | c),
{
    assert((a | b) | c == a | (b | c)) by (bit_vector);
}

/* ---------------- text fields ---------------- */

/// The symbol named by a unit text, if any.
pub open spec fn unit_symbol(t: Seq<u8>) -> Option<LcdSymbol> {
    if t == [86u8]@ { Some(LcdSymbol::UnitV) }
    else if t == [65u8]@ { Some(LcdSymbol::UnitA) }
    else if t == [87u8]@ { Some(LcdSymbol::UnitW) }
    else if t == [118u8, 97u8, 114u8]@ { Some(LcdSymbol::UnitVar) }
    else if t == [86u8, 65u8]@ { Some(LcdSymbol::UnitVA) }
    else if t == [72u8, 122u8]@ { Some(LcdSymbol::UnitHz) }
    else if t == [107u8, 87u8, 104u8]@ { Some(LcdSymbol::UnitKWh) }
    else if t == [107u8, 118u8, 97u8, 114u8, 104u8]@ { Some(LcdSymbol::UnitKVarh) }
    else { None }
}

/// Frame-buffer bits of a unit text ("V", "A", "W", "var", "VA", "Hz",
/// "kWh", "kvarh"; any other text shows nothing).
pub open spec fn unit_bits(t: Seq<u8>) -> u64 {
    match unit_symbol(t) {
        Some(sym) => symbol_bits(sym, true),
        None => 0,
    }
}

/// Frame-buffer bits of a status text: "OPEN" shows the battery symbol,
/// "CLOSE" the tariff symbol, "TEST" the alarm symbol.
pub open spec fn status_bits(t: Seq<u8>) -> u64 {
    if t == [79u8, 80u8, 69u8, 78u8]@ { symbol_bits(LcdSymbol::Battery, true) }
    else if t == [67u8, 76u8, 79u8, 83u8, 69u8]@ { symbol_bits(LcdSymbol::Tariff, true) }
    else if t == [84u8, 69u8, 83u8, 84u8]@ { symbol_bits(LcdSymbol::Alarm, true) }
    else { 0 }
}

/// ASCII decimal digit.
pub open spec fn is_ascii_digit(b: u8) -> bool {
    48 <= b <= 57
}

/// Value of a string of decimal digits.
pub open spec fn decimal_value(d: Seq<u8>) -> nat
    decreases d.len(),
{
    if d.len() == 0 { 0 } else { decimal_value(d.drop_last()) * 10 + (d.last() - 48) as nat }
}

/// The text without one leading '+'.
pub open spec fn strip_plus(t: Seq<u8>) -> Seq<u8> {
    if t.len() > 0 && t[0] == 43u8 { t.drop_first() } else { t }
}

/// Nothing but decimal digits.
pub open spec fn all_digits(d: Seq<u8>) -> bool {
    forall|i: int| 0 <= i < d.len() ==> is_ascii_digit(#[trigger] d[i])
}

/// A `u8` written in decimal, with an optional leading '+': at least one
/// digit, nothing but digits, at most 255.
pub open spec fn parse_u8_text(t: Seq<u8>) -> Option<u8> {
    let d = strip_plus(t);
    if d.len() > 0 && all_digits(d) && decimal_value(d) <= 255 {
        Some(decimal_value(d) as u8)
    } else {
        None
    }
}

/// End of the '.'-separated field starting at `i`: the next '.' or the end.
pub open spec fn dot_from(s: Seq<u8>, i: int) -> int
    decreases s.len() - i,
{
    if i >= s.len() { s.len() as int } else if s[i] == 46u8 { i } else { dot_from(s, i + 1) }
}

/// Start of field `k` of a '.'-separated text, if it has that many fields.
pub open spec fn field_start(s: Seq<u8>, k: nat) -> Option<int>
    decreases k,
{
    if k == 0 {
        Some(0)
    } else {
        match field_start(s, (k - 1) as nat) {
            Some(st) => if dot_from(s, st) < s.len() { Some(dot_from(s, st) + 1) } else { None },
            None => None,
        }
    }
}

/// Numeric value of field `k` of an OBIS text, if present and a `u8`.
pub open spec fn obis_field(s: Seq<u8>, k: nat) -> Option<u8> {
    match field_start(s, k) {
        Some(st) => parse_u8_text(s.subrange(st, dot_from(s, st))),
        None => None,
    }
}

/// Frame-buffer bits of the first `k` OBIS fields, field `i` shown at
/// digit position `i`.
pub open spec fn obis_bits(s: Seq<u8>, k: nat) -> u64
    decreases k,
{
    if k == 0 {
        0
    } else {
        obis_bits(s, (k - 1) as nat) | match obis_field(s, (k - 1) as nat) {
            Some(v) => digit_bits((k - 1) as u8, v, false),
            None => 0u64,
        }
    }
}

pub(crate) proof fn lemma_decimal_prefix_le(d: Seq<u8>, k: int)
    requires
        0 <= k <= d.len(),
    ensures
        decimal_value(d.subrange(0, k)) <= decimal_value(d),
    decreases d.len(),
{
    if k < d.len() {
        assert(d.drop_last().subrange(0, k) =~= d.subrange(0, k));
        lemma_decimal_prefix_le(d.drop_last(), k);
    } else {
        assert(d.subrange(0, k) =~= d);
    }
}

/// Is `b` exactly the text `t`?
fn text_is<const N: usize>(b: &[u8], t: [u8; N]) -> (r: bool)
    ensures
        r == (b@ == t@),
{
    if b.len() != t.len() {
        return false;
    }
    let mut i: usize = 0;
    while i < b.len()
        invariant
            b@.len() == t@.len(),
            i <= b.len(),
            forall|j: int| 0 <= j < i ==> b@[j] == t@[j],
        decreases b.len() - i,
    {
        if b[i] != t[i] {
            return false;
        }
        i = i + 1;
    }
    assert(b@ =~= t@);
    true
}

/// End of the '.'-separated field of `b` starting at `from`.
fn find_dot(b: &[u8], from: usize) -> (r: usize)
    requires
        from <= b@.len(),
    ensures
        r as int == dot_from(b@, from as int),
        from <= r <= b@.len(),
{
    let mut i: usize = from;
    while i < b.len()
        invariant
            from <= i <= b@.len(),
            dot_from(b@, from as int) == dot_from(b@, i as int),
        decreases b.len() - i,
    {
        if b[i] == 46u8 {
            return i;
        }
        i = i + 1;
    }
    i
}

/// Parse `b[from..to]` as a decimal `u8`.
pub(crate) fn parse_u8_field(b: &[u8], from: usize, to: usize) -> (r: Option<u8>)
    requires
        from <= to <= b@.len(),
    ensures
        r == parse_u8_text(b@.subrange(from as int, to as int)),
{
    let ghost t = b@.subrange(from as int, to as int);
    let mut i: usize = from;
    if i < to && b[i] == 43u8 {
        i = i + 1;
    }
    let ghost d = b@.subrange(i as int, to as int);
    assert(d =~= strip_plus(t));
    if i == to {
        return None;
    }
    let ghost ds = i;
    let mut v: u32 = 0;
    while i < to
        invariant
            ds <= i <= to <= b@.len(),
            d == b@.subrange(ds as int, to as int),
            t == b@.subrange(from as int, to as int),
            d == strip_plus(t),
            v as nat == decimal_value(d.subrange(0, i - ds)),
            v <= 255,
            forall|j: int| 0 <= j < i - ds ==> is_ascii_digit(#[trigger] d[j]),
        decreases to - i,
    {
        let c = b[i];
        if c < 48 || c > 57 {
            assert(!is_ascii_digit(d[i - ds]));
            assert(!all_digits(d));
            assert(parse_u8_text(t) is None);
            return None;
        }
        assert(d.subrange(0, i - ds + 1).drop_last() =~= d.subrange(0, i - ds));
        v = v * 10 + ((c - 48) as u32);
        if v > 255 {
            proof {
                if all_digits(d) {
                    lemma_decimal_prefix_le(d, i - ds + 1);
                    assert(decimal_value(d) > 255);
                }
                assert(parse_u8_text(t) is None);
            }
            return None;
        }
        i = i + 1;
    }
    assert(d.subrange(0, d.len() as int) =~= d);
    Some(v as u8)
}

/// The frame after a clear with `bits` written to COM line 0.
pub open spec fn frame(bits: u64) -> Seq<u64> {
    seq![bits, 0u64, 0u64, 0u64]
}

/// Frame-buffer bits of a rendered page (after a clear): the page's
/// numbers and symbols, and the alarm symbol on every page.
pub open spec fn page_bits(page: u8, c: LcdContent) -> u64 {
    let body: u64 = if page == 0 {
        0u64 | number_bits(0, c.voltage_a as i32, 1, 8) | number_bits(4, c.current_a as i32, 0, 8)
            | symbol_bits(LcdSymbol::PhaseA, true) | symbol_bits(LcdSymbol::UnitV, true) | symbol_bits(LcdSymbol::UnitA, true)
    } else if page == 1 {
        0u64 | number_bits(0, c.voltage_b as i32, 1, 8) | number_bits(4, c.current_b as i32, 0, 8)
            | symbol_bits(LcdSymbol::PhaseB, true) | symbol_bits(LcdSymbol::UnitV, true) | symbol_bits(LcdSymbol::UnitA, true)
    } else if page == 2 {
        0u64 | number_bits(0, c.voltage_c as i32, 1, 8) | number_bits(4, c.current_c as i32, 0, 8)
            | symbol_bits(LcdSymbol::PhaseC, true) | symbol_bits(LcdSymbol::UnitV, true) | symbol_bits(LcdSymbol::UnitA, true)
    } else if page == 3 {
        0u64 | number_bits(0, c.active_power, 0, 8) | symbol_bits(LcdSymbol::UnitW, true)
    } else if page == 4 {
        0u64 | number_bits(0, c.reactive_power, 0, 8) | symbol_bits(LcdSymbol::UnitVar, true)
    } else if page == 5 {
        0u64 | number_bits(0, c.apparent_power as i32, 0, 8) | number_bits(4, c.neutral_current as i32, 0, 8)
            | symbol_bits(LcdSymbol::UnitVA, true) | symbol_bits(LcdSymbol::UnitA, true)
    } else if page == 6 {
        0u64 | number_bits(0, c.power_factor as i32, 3, 8) | number_bits(4, c.frequency as i32, 2, 8)
            | symbol_bits(LcdSymbol::UnitPF, true) | symbol_bits(LcdSymbol::UnitHz, true)
    } else if page == 7 {
        0u64 | number_bits(0, (c.active_import_energy / 100) as i32, 2, 8)
            | symbol_bits(LcdSymbol::UnitKWh, true) | symbol_bits(LcdSymbol::Forward, true)
    } else if page == 8 {
        0u64 | number_bits(0, (c.active_export_energy / 100) as i32, 2, 8)
            | symbol_bits(LcdSymbol::UnitKWh, true) | symbol_bits(LcdSymbol::Reverse, true)
    } else if page == 9 {
        0u64 | number_bits(0, c.demand_power as i32, 0, 8) | number_bits(4, c.max_demand_power as i32, 0, 8)
            | symbol_bits(LcdSymbol::UnitW, true)
    } else if page == 10 {
        0u64 | number_bits(0, c.date_year as i32, 0, 8)
            | number_bits(4, (c.date_month * 100 + c.date_day) as i32, 0, 8)
            | number_bits(0, (c.time_hour * 10000 + c.time_min * 100 + c.time_sec) as i32, 0, 8)
    } else if page == 11 {
        0u64 | number_bits(0, c.tariff as i32, 0, 8) | symbol_bits(LcdSymbol::Tariff, true)
            | symbol_bits(LcdSymbol::RS485, c.comm_status & 1 != 0)
            | symbol_bits(LcdSymbol::IR, c.comm_status & 2 != 0)
            | symbol_bits(LcdSymbol::LoRa, c.comm_status & 4 != 0)
            | symbol_bits(LcdSymbol::Cellular, c.comm_status & 8 != 0)
    } else {
        0u64
    };
    body | symbol_bits(LcdSymbol::Alarm, c.alarm_flags & 1 != 0)
}

/// Reverse-energy page law: page 8 shows the export energy exactly as
/// page 7 shows the import energy (kWh, two decimals), with the Reverse
/// symbol where page 7 has Forward; so it does not depend on the import
/// energy at all.
pub proof fn lemma_reverse_energy_page(c: LcdContent)
    ensures
        page_bits(8, c) | symbol_bits(LcdSymbol::Forward, true)
            == page_bits(7, (LcdContent { active_import_energy: c.active_export_energy, ..c }))
            | symbol_bits(LcdSymbol::Reverse, true),
        forall|x: u64| #[trigger] page_bits(8, (LcdContent { active_import_energy: x, ..c })) == page_bits(8, c),
{
    let c7 = LcdContent { active_import_energy: c.active_export_energy, ..c };
    let nn = number_bits(0, (c.active_export_energy / 100) as i32, 2, 8);
    let k = symbol_bits(LcdSymbol::UnitKWh, true);
    let f = symbol_bits(LcdSymbol::Forward, true);
    let rv = symbol_bits(LcdSymbol::Reverse, true);
    let a = symbol_bits(LcdSymbol::Alarm, c.alarm_flags & 1 != 0);
    assert(page_bits(8, c) == (((0u64 | nn) | k) | rv) | a);
    assert(page_bits(7, c7) == (((0u64 | nn) | k) | f) | a);
    assert(((((0u64 | nn) | k) | rv) | a) | f == ((((0u64 | nn) | k) | f) | a) | rv) by (bit_vector);
}

/// Frame-buffer bits of the power-off page: total import energy in kWh.
pub open spec fn energy_page_bits(c: LcdContent) -> u64 {
    0u64 | number_bits(0, (c.active_import_energy / 100) as i32, 2, 8) | symbol_bits(LcdSymbol::UnitKWh, true)
}

/// Next page in rotation order.
pub open spec fn next_page_of(page: u8, total: u8) -> u8 {
    ((page + 1) % (total as int)) as u8
}

/* ---------------- panel ---------------- */

/// One periodic update of panel `p` to `q` showing `c` (see `LcdPanel::tick`).
pub open spec fn tick_outcome(p: LcdPanel, q: LcdPanel, c: LcdContent) -> bool {
    &&& q.mode == p.mode
    &&& q.rotate_total == p.rotate_total
    &&& q.enabled == p.enabled
    &&& match p.mode {
        LcdDisplayMode::AutoRotate { interval_sec } => {
            let t = p.rotate_timer + 100;
            let turn = t >= interval_sec * 1000;
            let page = if turn { next_page_of(p.rotate_page, p.rotate_total) } else { p.rotate_page };
            &&& q.rotate_timer == (if turn { 0 } else { t })
            &&& q.rotate_page == page
            &&& q.display_ram@ == frame(page_bits(page, c))
        },
        LcdDisplayMode::Manual => {
            &&& q.rotate_timer == p.rotate_timer
            &&& q.rotate_page == p.rotate_page
            &&& q.display_ram@ == frame(page_bits(p.rotate_page, c))
        },
        LcdDisplayMode::PowerOffHold => {
            &&& q.rotate_timer == p.rotate_timer
            &&& q.rotate_page == p.rotate_page
            &&& q.display_ram@ == frame(energy_page_bits(c))
        },
        LcdDisplayMode::TestAllOn => {
            &&& q.rotate_timer == p.rotate_timer
            &&& q.rotate_page == p.rotate_page
            &&& q.display_ram@ == seq![ALL_SEGMENTS, ALL_SEGMENTS, ALL_SEGMENTS, ALL_SEGMENTS]
        },
        LcdDisplayMode::Off => {
            &&& q.rotate_timer == p.rotate_timer
            &&& q.rotate_page == p.rotate_page
            &&& q.display_ram@ == frame(0)
        },
    }
}


/// Segment lines of the status symbols on COM 0 (battery, tariff, alarm:
/// lines 38, 37, 36).
pub const STATUS_SEGMENTS: u64 = 0x70_0000_0000;

/// LCD panel state: frame buffer and page rotation.
pub struct LcdPanel {
    /// Frame buffer, one word per COM line, bit `seg` = segment line `seg`
    pub display_ram: [u64; 4],
    /// Display mode
    pub mode: LcdDisplayMode,
    /// Rotation timer (ms)
    pub rotate_timer: u32,
    /// Current page
    pub rotate_page: u8,
    /// Number of pages
    pub rotate_total: u8,
    /// Display enabled
    pub enabled: bool,
}

impl LcdPanel {
    /// A panel with a blank frame, display off, 12 pages.
    pub fn new() -> (r: Self)
        ensures
            r.display_ram@ == seq![0u64, 0u64, 0u64, 0u64],
            r.mode == LcdDisplayMode::Off,
            r.rotate_timer == 0,
            r.rotate_page == 0,
            r.rotate_total == 12,
            !r.enabled,
    {
        let r = LcdPanel {
            display_ram: [0, 0, 0, 0],
            mode: LcdDisplayMode::Off,
            rotate_timer: 0,
            rotate_page: 0,
            rotate_total: 12,
            enabled: false,
        };
        assert(r.display_ram@ =~= seq![0u64, 0u64, 0u64, 0u64]);
        r
    }

    /// Write digit `value` (0..15; 10 blank, 15 minus) with decimal point
    /// `dp` at position `digit_index` (eight segment lines per position;
    /// positions past the 44 segment lines are ignored).
    pub fn write_digit(&mut self, digit_index: u8, value: u8, dp: bool)
        ensures
            final(self).display_ram@ == old(self).display_ram@.update(
                0,
                old(self).display_ram[0] | digit_bits(digit_index, value, dp),
            ),
            final(self).mode == old(self).mode,
            final(self).rotate_timer == old(self).rotate_timer,
            final(self).rotate_page == old(self).rotate_page,
            final(self).rotate_total == old(self).rotate_total,
            final(self).enabled == old(self).enabled,
    {
        let pattern: u8 = if (value as usize) < 16 { SEGMENT_PATTERNS[value as usize] } else { 0 };
        let pattern_with_dp: u8 = if dp { pattern | 0x01 } else { pattern };
        let seg_base: u64 = (digit_index as u64) * 8;
        if seg_base + 7 >= SEG_COUNT {
            proof { lemma_or_zero(self.display_ram[0]); }
            assert(self.display_ram@ =~= old(self).display_ram@.update(0, old(self).display_ram[0] | 0u64));
            return;
        }
        self.display_ram[0] = self.display_ram[0] | ((pattern_with_dp as u64) << seg_base);
    }

    /// Turn a symbol on (switching off leaves the frame as it is).
    pub fn write_symbol(&mut self, symbol: LcdSymbol, on: bool)
        ensures
            final(self).display_ram@ == old(self).display_ram@.update(
                0,
                old(self).display_ram[0] | symbol_bits(symbol, on),
            ),
            final(self).mode == old(self).mode,
            final(self).rotate_timer == old(self).rotate_timer,
            final(self).rotate_page == old(self).rotate_page,
            final(self).rotate_total == old(self).rotate_total,
            final(self).enabled == old(self).enabled,
    {
        let seg_offset: u64 = match symbol {
            LcdSymbol::PhaseA => 40,
            LcdSymbol::PhaseB => 41,
            LcdSymbol::PhaseC => 42,
            LcdSymbol::UnitV => 32,
            LcdSymbol::UnitA => 33,
            LcdSymbol::UnitW => 34,
            LcdSymbol::UnitVar => 35,
            LcdSymbol::UnitVA => 36,
            LcdSymbol::UnitHz => 37,
            LcdSymbol::UnitPF => 38,
            LcdSymbol::UnitKWh => 39,
            LcdSymbol::UnitKVarh => 40,
            LcdSymbol::Forward => 41,
            LcdSymbol::Reverse => 42,
            LcdSymbol::RS485 => 32,
            LcdSymbol::IR => 33,
            LcdSymbol::LoRa => 34,
            LcdSymbol::Cellular => 35,
            LcdSymbol::Alarm => 36,
            LcdSymbol::Tariff => 37,
            LcdSymbol::Battery => 38,
            LcdSymbol::Dot => 43,
            LcdSymbol::Negative => 44,
        };
        if on && seg_offset < SEG_COUNT {
            self.display_ram[0] = self.display_ram[0] | (1u64 << seg_offset);
        } else {
            proof { lemma_or_zero(self.display_ram[0]); }
            assert(self.display_ram@ =~= old(self).display_ram@.update(0, old(self).display_ram[0] | 0u64));
        }
    }

    /// Write the decimal digits of `value` from position `start_digit` on,
    /// most significant first, with a decimal point on the digit `dp_pos`
    /// places from the last (0 = none). Only the lowest eight decimal
    /// digits are shown; for a negative number leading zeros are skipped
    /// as well and a minus sign is drawn before the highest significant
    /// digit (when that digit is not the first of the eight).
    pub fn write_number(&mut self, start_digit: u8, value: i32, dp_pos: u8)
        requires
            start_digit <= 248,
        ensures
            final(self).display_ram@ == old(self).display_ram@.update(
                0,
                old(self).display_ram[0] | number_bits(start_digit, value, dp_pos, 8),
            ),
            final(self).mode == old(self).mode,
            final(self).rotate_timer == old(self).rotate_timer,
            final(self).rotate_page == old(self).rotate_page,
            final(self).rotate_total == old(self).rotate_total,
            final(self).enabled == old(self).enabled,
    {
        let negative = value < 0;
        let val: u32 = if negative { (0i64 - (value as i64)) as u32 } else { value as u32 };
        let ghost nv: nat = val as nat;
        assert(nv == abs_i32(value));

        // split into decimal digits, least significant first
        let mut digits: [u8; 8] = [10u8, 10u8, 10u8, 10u8, 10u8, 10u8, 10u8, 10u8];
        let mut v: u32 = val;
        let mut k: usize = 8;
        proof {
            assert(pow10(0) == 1);
            assert(nv / 1 == nv);
        }
        while k > 0
            invariant_except_break
                k <= 8,
                v as nat == nv / pow10((8 - k) as nat),
                k < 8 ==> v > 0,
                forall|j: int| k <= j < 8 ==> #[trigger] digits@[j] == number_digit(nv, j),
                forall|j: int| 0 <= j < k ==> #[trigger] digits@[j] == 10u8,
            invariant
                digits@.len() == 8,
                nv == val as nat,
            ensures
                forall|j: int| 0 <= j < 8 ==> #[trigger] digits@[j] == number_digit(nv, j),
            decreases k,
        {
            let p = k - 1;
            proof {
                lemma_div_pow10_step(nv, (7 - p) as nat);
            }
            digits[p] = (v % 10) as u8;
            v = v / 10;
            if v == 0 {
                proof {
                    assert forall|j: int| 0 <= j < 8 implies #[trigger] digits@[j] == number_digit(nv, j) by {
                        if j < p {
                            lemma_div_pow10_zero(nv, (8 - p) as nat, (7 - j) as nat);
                        }
                    }
                }
                break;
            }
            k = k - 1;
        }

        // skip the leading blanks (and, for a negative number, zeros)
        let mut start: usize = 0;
        if !negative {
            let mut first: usize = 7;
            let mut i: usize = 0;
            while i < 7
                invariant_except_break
                    i <= 7,
                    first_digit(nv, 0) == first_digit(nv, i as int),
                    first == 7,
                invariant
                    digits@.len() == 8,
                    forall|j: int| 0 <= j < 8 ==> #[trigger] digits@[j] == number_digit(nv, j),
                ensures
                    first == first_digit(nv, 0),
                    first < 8,
                decreases 7 - i,
            {
                if digits[i] != 10 {
                    first = i;
                    break;
                }
                i = i + 1;
            }
            start = first;
        } else {
            let mut first: usize = 0;
            let mut i: usize = 0;
            while i < 8
                invariant_except_break
                    i <= 8,
                    first_significant(nv, 0) == first_significant(nv, i as int),
                    first == 0,
                invariant
                    digits@.len() == 8,
                    forall|j: int| 0 <= j < 8 ==> #[trigger] digits@[j] == number_digit(nv, j),
                ensures
                    first == first_significant(nv, 0),
                    first < 8,
                decreases 8 - i,
            {
                if digits[i] != 0 && digits[i] != 10 {
                    first = i;
                    break;
                }
                i = i + 1;
            }
            if first > 0 {
                digits[first - 1] = 15;
                start = first - 1;
            } else {
                start = first;
            }
        }
        assert(start as int == number_start(value));

        let ghost ram0 = old(self).display_ram[0];
        proof {
            lemma_or_zero(ram0);
            assert(number_bits(start_digit, value, dp_pos, start as int) == 0);
            assert(self.display_ram@ =~= old(self).display_ram@.update(0, ram0 | 0u64));
        }
        let mut i: usize = start;
        while i < 8
            invariant
                start <= i <= 8,
                start as int == number_start(value),
                start_digit <= 248,
                digits@.len() == 8,
                nv == abs_i32(value),
                forall|j: int| start <= j < 8 ==> #[trigger] digits@[j] == shown_code(value, j),
                self.display_ram@ == old(self).display_ram@.update(0, ram0 | number_bits(start_digit, value, dp_pos, i as int)),
                ram0 == old(self).display_ram[0],
                self.mode == old(self).mode,
                self.rotate_timer == old(self).rotate_timer,
                self.rotate_page == old(self).rotate_page,
                self.rotate_total == old(self).rotate_total,
                self.enabled == old(self).enabled,
            decreases 8 - i,
        {
            let dp = dp_pos > 0 && (7 - i) == dp_pos as usize;
            let idx: u8 = start_digit + ((i - start) as u8);
            self.write_digit(idx, digits[i], dp);
            proof {
                lemma_or_assoc(
                    ram0,
                    number_bits(start_digit, value, dp_pos, i as int),
                    digit_bits(idx, digits@[i as int], dp),
                );
                assert(self.display_ram@ =~= old(self).display_ram@.update(
                    0,
                    ram0 | number_bits(start_digit, value, dp_pos, i + 1),
                ));
            }
            i = i + 1;
        }
        proof {
            if start == 8 {
                assert(number_bits(start_digit, value, dp_pos, 8) == number_bits(start_digit, value, dp_pos, start as int));
            }
        }
    }

    /// Mode, rotation and enable state are as in `other`.
    pub open spec fn same_state(&self, other: &LcdPanel) -> bool {
        &&& self.mode == other.mode
        &&& self.rotate_timer == other.rotate_timer
        &&& self.rotate_page == other.rotate_page
        &&& self.rotate_total == other.rotate_total
        &&& self.enabled == other.enabled
    }

    /// The rotation counters can advance without overflow.
    pub open spec fn rotation_ready(&self) -> bool {
        &&& self.rotate_total > 0
        &&& self.rotate_page < 255
        &&& self.rotate_timer <= 0xFFFF_FF9B
    }

    /// Write a number, then the symbol of `unit`.
    pub fn write_number_with_unit(&mut self, start_digit: u8, value: i32, dp_pos: u8, unit: &str)
        requires
            start_digit <= 248,
        ensures
            final(self).display_ram@ == old(self).display_ram@.update(
                0,
                old(self).display_ram[0] | number_bits(start_digit, value, dp_pos, 8) | unit_bits(unit.spec_bytes()),
            ),
            final(self).same_state(&*old(self)),
    {
        self.write_number(start_digit, value, dp_pos);
        self.write_unit(unit);
    }

    /// Turn on the symbol of a unit text ("V", "A", "W", "var", "VA",
    /// "Hz", "kWh", "kvarh"; any other text shows nothing).
    pub fn write_unit(&mut self, unit: &str)
        ensures
            final(self).display_ram@ == old(self).display_ram@.update(
                0,
                old(self).display_ram[0] | unit_bits(unit.spec_bytes()),
            ),
            final(self).same_state(&*old(self)),
    {
        let b = unit.as_bytes();
        if text_is(b, [86u8]) {
            self.write_symbol(LcdSymbol::UnitV, true);
        } else if text_is(b, [65u8]) {
            self.write_symbol(LcdSymbol::UnitA, true);
        } else if text_is(b, [87u8]) {
            self.write_symbol(LcdSymbol::UnitW, true);
        } else if text_is(b, [118u8, 97u8, 114u8]) {
            self.write_symbol(LcdSymbol::UnitVar, true);
        } else if text_is(b, [86u8, 65u8]) {
            self.write_symbol(LcdSymbol::UnitVA, true);
        } else if text_is(b, [72u8, 122u8]) {
            self.write_symbol(LcdSymbol::UnitHz, true);
        } else if text_is(b, [107u8, 87u8, 104u8]) {
            self.write_symbol(LcdSymbol::UnitKWh, true);
        } else if text_is(b, [107u8, 118u8, 97u8, 114u8, 104u8]) {
            self.write_symbol(LcdSymbol::UnitKVarh, true);
        } else {
            proof {
                lemma_or_zero(self.display_ram[0]);
            }
            assert(self.display_ram@ =~= old(self).display_ram@.update(0, old(self).display_ram[0] | 0u64));
        }
    }

    /// Show an OBIS short code "A.B.C...": the first three fields, each a
    /// decimal `u8`, at digit positions 0, 1 and 2 (a field that is missing
    /// or not a `u8` is skipped).
    pub fn write_obis_code(&mut self, obis: &str)
        ensures
            final(self).display_ram@ == old(self).display_ram@.update(
                0,
                old(self).display_ram[0] | obis_bits(obis.spec_bytes(), 3),
            ),
            final(self).same_state(&*old(self)),
    {
        let b = obis.as_bytes();
        let ghost s = b@;
        let ghost ram0 = old(self).display_ram[0];
        let mut start: usize = 0;
        let mut more = true;
        let mut k: u8 = 0;
        proof {
            lemma_or_zero(ram0);
            assert(self.display_ram@ =~= old(self).display_ram@.update(0, ram0 | obis_bits(s, 0)));
        }
        while k < 3
            invariant
                k <= 3,
                s == b@,
                start <= b@.len(),
                more ==> field_start(s, k as nat) == Some(start as int),
                !more ==> field_start(s, k as nat) is None,
                ram0 == old(self).display_ram[0],
                self.display_ram@ == old(self).display_ram@.update(0, ram0 | obis_bits(s, k as nat)),
                self.same_state(&*old(self)),
            decreases 3 - k,
        {
            let ghost before = self.display_ram[0];
            if more {
                let end = find_dot(b, start);
                let field = parse_u8_field(b, start, end);
                match field {
                    Some(val) => {
                        self.write_digit(k, val, false);
                    },
                    None => {
                        proof {
                            lemma_or_zero(before);
                        }
                        assert(self.display_ram@ =~= self.display_ram@.update(0, before | 0u64));
                    },
                }
                if end < b.len() {
                    start = end + 1;
                } else {
                    more = false;
                }
            } else {
                proof {
                    lemma_or_zero(before);
                }
            }
            proof {
                lemma_or_assoc(
                    ram0,
                    obis_bits(s, k as nat),
                    match obis_field(s, k as nat) {
                        Some(v) => digit_bits(k, v, false),
                        None => 0u64,
                    },
                );
            }
            k = k + 1;
        }
    }

    /// Show a voltage (0.01 V) in 0.1 V, with one decimal from 10.0 V on.
    pub fn format_voltage(&mut self, value: u32)
        ensures
            ({
                let d = (value / 10) as i32;
                final(self).display_ram@ == old(self).display_ram@.update(
                    0,
                    old(self).display_ram[0] | number_bits(0, d, if d >= 100 { 1 } else { 0 }, 8)
                        | symbol_bits(LcdSymbol::UnitV, true),
                )
            }),
            final(self).same_state(&*old(self)),
    {
        let display_value: i32 = (value / 10) as i32;
        let dp_pos: u8 = if display_value >= 100 { 1 } else { 0 };
        self.write_number(0, display_value, dp_pos);
        self.write_symbol(LcdSymbol::UnitV, true);
    }

    /// Show a current (mA): from 10 A on in 0.01 A, below in 0.001 A,
    /// with two decimals from 100 units on, else three.
    pub fn format_current(&mut self, value: u16)
        ensures
            ({
                let d = if value >= 10000 { (value / 100) as i32 } else { (value / 10) as i32 };
                final(self).display_ram@ == old(self).display_ram@.update(
                    0,
                    old(self).display_ram[0] | number_bits(0, d, if d >= 100 { 2 } else { 3 }, 8)
                        | symbol_bits(LcdSymbol::UnitA, true),
                )
            }),
            final(self).same_state(&*old(self)),
    {
        let display_value: i32 = if value >= 10000 { (value / 100) as i32 } else { (value / 10) as i32 };
        let dp_pos: u8 = if display_value >= 100 { 2 } else { 3 };
        self.write_number(0, display_value, dp_pos);
        self.write_symbol(LcdSymbol::UnitA, true);
    }

    /// Show a power magnitude (W, var or VA): from 1 000 000 in thousands,
    /// from 1000 in tens with one decimal, else as is.
    pub fn format_power(&mut self, value: i32, unit: &str)
        requires
            value != i32::MIN,
        ensures
            ({
                let a = abs_i32(value);
                let (d, dp) = if a >= 1000000 { (a / 1000, 0u8) } else if a >= 1000 { (a / 10, 1u8) } else { (a, 0u8) };
                final(self).display_ram@ == old(self).display_ram@.update(
                    0,
                    old(self).display_ram[0] | number_bits(0, d as i32, dp, 8) | unit_bits(unit.spec_bytes()),
                )
            }),
            final(self).same_state(&*old(self)),
    {
        let abs_value: i32 = if value < 0 { -value } else { value };
        let (display_value, dp_pos): (i32, u8) = if abs_value >= 1000000 {
            (abs_value / 1000, 0)
        } else if abs_value >= 1000 {
            (abs_value / 10, 1)
        } else {
            (abs_value, 0)
        };
        self.write_number(0, display_value, dp_pos);
        self.write_unit(unit);
    }

    /// Show an energy (0.01 kWh / kvarh) in whole units (narrowed to 32
    /// bits), with two decimals below 1000.
    pub fn format_energy(&mut self, value: u64, unit: &str)
        ensures
            ({
                let d = (value / 100) as i32;
                final(self).display_ram@ == old(self).display_ram@.update(
                    0,
                    old(self).display_ram[0] | number_bits(0, d, if d >= 1000 { 0 } else { 2 }, 8)
                        | unit_bits(unit.spec_bytes()),
                )
            }),
            final(self).same_state(&*old(self)),
    {
        let display_value: i32 = (value / 100) as i32;
        let dp_pos: u8 = if display_value >= 1000 { 0 } else { 2 };
        self.write_number(0, display_value, dp_pos);
        self.write_unit(unit);
    }

    /// Show a power factor (0..1000) with three decimals.
    pub fn format_power_factor(&mut self, value: u16)
        ensures
            final(self).display_ram@ == old(self).display_ram@.update(
                0,
                old(self).display_ram[0] | number_bits(0, value as i32, 3, 8),
            ),
            final(self).same_state(&*old(self)),
    {
        self.write_number(0, value as i32, 3);
    }

    /// Show a frequency (0.01 Hz) in whole Hz.
    pub fn format_frequency(&mut self, value: u16)
        ensures
            final(self).display_ram@ == old(self).display_ram@.update(
                0,
                old(self).display_ram[0] | number_bits(0, (value / 100) as i32, 2, 8)
                    | symbol_bits(LcdSymbol::UnitHz, true),
            ),
            final(self).same_state(&*old(self)),
    {
        self.write_number(0, (value / 100) as i32, 2);
        self.write_symbol(LcdSymbol::UnitHz, true);
    }

    /// Show a status indication: "OPEN" (battery symbol), "CLOSE" (tariff
    /// symbol) or "TEST" (alarm symbol); any other text shows nothing.
    pub fn show_status(&mut self, status: &str)
        ensures
            final(self).display_ram@ == old(self).display_ram@.update(
                0,
                old(self).display_ram[0] | status_bits(status.spec_bytes()),
            ),
            final(self).same_state(&*old(self)),
    {
        let b = status.as_bytes();
        if text_is(b, [79u8, 80u8, 69u8, 78u8]) {
            self.write_symbol(LcdSymbol::Battery, true);
        } else if text_is(b, [67u8, 76u8, 79u8, 83u8, 69u8]) {
            self.write_symbol(LcdSymbol::Tariff, true);
        } else if text_is(b, [84u8, 69u8, 83u8, 84u8]) {
            self.write_symbol(LcdSymbol::Alarm, true);
        } else {
            proof {
                lemma_or_zero(self.display_ram[0]);
            }
            assert(self.display_ram@ =~= old(self).display_ram@.update(0, old(self).display_ram[0] | 0u64));
        }
    }

    /// Clear the status indications: the battery, tariff and alarm
    /// symbols (COM 0, segment lines 36 to 38) are switched off.
    pub fn clear_status(&mut self)
        ensures
            final(self).display_ram@ == old(self).display_ram@.update(0, old(self).display_ram[0] & !STATUS_SEGMENTS),
            final(self).same_state(&*old(self)),
    {
        self.display_ram[0] = self.display_ram[0] & !STATUS_SEGMENTS;
    }

    /// Advance to the next page and render it.
    pub fn auto_rotate(&mut self, content: &LcdContent)
        requires
            old(self).rotate_total > 0,
            old(self).rotate_page < 255,
        ensures
            final(self).rotate_page == next_page_of(old(self).rotate_page, old(self).rotate_total),
            final(self).display_ram@ == frame(page_bits(final(self).rotate_page, *content)),
            final(self).mode == old(self).mode,
            final(self).rotate_timer == old(self).rotate_timer,
            final(self).rotate_total == old(self).rotate_total,
            final(self).enabled == old(self).enabled,
    {
        self.rotate_page = (self.rotate_page + 1) % self.rotate_total;
        self.render_page(self.rotate_page, content);
    }

    /// Blank the frame.
    pub fn clear(&mut self)
        ensures
            final(self).display_ram@ == frame(0),
            final(self).same_state(&*old(self)),
    {
        self.display_ram = [0, 0, 0, 0];
        assert(self.display_ram@ =~= frame(0));
    }

    /// All segments on (test mode).
    pub fn all_on(&mut self)
        ensures
            final(self).display_ram@ == seq![ALL_SEGMENTS, ALL_SEGMENTS, ALL_SEGMENTS, ALL_SEGMENTS],
            final(self).same_state(&*old(self)),
    {
        self.display_ram = [ALL_SEGMENTS, ALL_SEGMENTS, ALL_SEGMENTS, ALL_SEGMENTS];
        assert(self.display_ram@ =~= seq![ALL_SEGMENTS, ALL_SEGMENTS, ALL_SEGMENTS, ALL_SEGMENTS]);
    }

    /// Periodic update (every 100 ms): in automatic rotation advance the
    /// timer and move to the next page once `interval_sec` has passed, then
    /// render the current page; in manual mode render the current page;
    /// when holding after power-off show the import energy only; in test
    /// mode light everything; when off blank the frame. The frame is then
    /// ready to be written to the LCD controller.
    pub fn tick(&mut self, content: &LcdContent)
        requires
            old(self).rotation_ready(),
        ensures
            tick_outcome(*old(self), *final(self), *content),
    {
        match self.mode {
            LcdDisplayMode::AutoRotate { interval_sec } => {
                self.rotate_timer = self.rotate_timer + 100;
                if self.rotate_timer >= (interval_sec as u32) * 1000 {
                    self.rotate_timer = 0;
                    self.rotate_page = (self.rotate_page + 1) % self.rotate_total;
                }
                self.render_page(self.rotate_page, content);
            },
            LcdDisplayMode::Manual => {
                self.render_page(self.rotate_page, content);
            },
            LcdDisplayMode::PowerOffHold => {
                self.render_energy_only(content);
            },
            LcdDisplayMode::TestAllOn => {
                self.all_on();
            },
            LcdDisplayMode::Off => {
                self.clear();
            },
        }
    }

    /// Render page `page` of `content` on a cleared frame.
    fn render_page(&mut self, page: u8, content: &LcdContent)
        ensures
            final(self).display_ram@ == frame(page_bits(page, *content)),
            final(self).same_state(&*old(self)),
    {
        self.clear();
        if page == 0 {
            self.write_number(0, content.voltage_a as i32, 1);
            self.write_number(4, content.current_a as i32, 0);
            self.write_symbol(LcdSymbol::PhaseA, true);
            self.write_symbol(LcdSymbol::UnitV, true);
            self.write_symbol(LcdSymbol::UnitA, true);
        } else if page == 1 {
            self.write_number(0, content.voltage_b as i32, 1);
            self.write_number(4, content.current_b as i32, 0);
            self.write_symbol(LcdSymbol::PhaseB, true);
            self.write_symbol(LcdSymbol::UnitV, true);
            self.write_symbol(LcdSymbol::UnitA, true);
        } else if page == 2 {
            self.write_number(0, content.voltage_c as i32, 1);
            self.write_number(4, content.current_c as i32, 0);
            self.write_symbol(LcdSymbol::PhaseC, true);
            self.write_symbol(LcdSymbol::UnitV, true);
            self.write_symbol(LcdSymbol::UnitA, true);
        } else if page == 3 {
            self.write_signed(0, content.active_power, 0);
            self.write_symbol(LcdSymbol::UnitW, true);
        } else if page == 4 {
            self.write_signed(0, content.reactive_power, 0);
            self.write_symbol(LcdSymbol::UnitVar, true);
        } else if page == 5 {
            self.write_number(0, content.apparent_power as i32, 0);
            self.write_number(4, content.neutral_current as i32, 0);
            self.write_symbol(LcdSymbol::UnitVA, true);
            self.write_symbol(LcdSymbol::UnitA, true);
        } else if page == 6 {
            self.write_number(0, content.power_factor as i32, 3);
            self.write_number(4, content.frequency as i32, 2);
            self.write_symbol(LcdSymbol::UnitPF, true);
            self.write_symbol(LcdSymbol::UnitHz, true);
        } else if page == 7 {
            self.write_number(0, (content.active_import_energy / 100) as i32, 2);
            self.write_symbol(LcdSymbol::UnitKWh, true);
            self.write_symbol(LcdSymbol::Forward, true);
        } else if page == 8 {
            self.write_number(0, (content.active_export_energy / 100) as i32, 2);
            self.write_symbol(LcdSymbol::UnitKWh, true);
            self.write_symbol(LcdSymbol::Reverse, true);
        } else if page == 9 {
            self.write_number(0, content.demand_power as i32, 0);
            self.write_number(4, content.max_demand_power as i32, 0);
            self.write_symbol(LcdSymbol::UnitW, true);
        } else if page == 10 {
            self.write_number(0, content.date_year as i32, 0);
            self.write_number(4, (content.date_month as i32) * 100 + content.date_day as i32, 0);
            self.write_number(
                0,
                (content.time_hour as i32) * 10000 + (content.time_min as i32) * 100 + content.time_sec as i32,
                0,
            );
        } else if page == 11 {
            self.write_number(0, content.tariff as i32, 0);
            self.write_symbol(LcdSymbol::Tariff, true);
            self.write_symbol(LcdSymbol::RS485, content.comm_status & 0x01 != 0);
            self.write_symbol(LcdSymbol::IR, content.comm_status & 0x02 != 0);
            self.write_symbol(LcdSymbol::LoRa, content.comm_status & 0x04 != 0);
            self.write_symbol(LcdSymbol::Cellular, content.comm_status & 0x08 != 0);
        }
        // the alarm indication is shown on every page
        self.write_symbol(LcdSymbol::Alarm, content.alarm_flags & 0x01 != 0);
        assert(self.display_ram@ =~= frame(page_bits(page, *content)));
    }

    /// Power-off page: total import energy only.
    fn render_energy_only(&mut self, content: &LcdContent)
        ensures
            final(self).display_ram@ == frame(energy_page_bits(*content)),
            final(self).same_state(&*old(self)),
    {
        self.clear();
        self.write_number(0, (content.active_import_energy / 100) as i32, 2);
        self.write_symbol(LcdSymbol::UnitKWh, true);
        assert(self.display_ram@ =~= frame(energy_page_bits(*content)));
    }

    /// Next page by key; restarts the rotation timer.
    pub fn next_page(&mut self)
        requires
            old(self).rotate_total > 0,
            old(self).rotate_page < 255,
        ensures
            final(self).rotate_page == next_page_of(old(self).rotate_page, old(self).rotate_total),
            final(self).rotate_timer == 0,
            final(self).display_ram == old(self).display_ram,
            final(self).mode == old(self).mode,
            final(self).rotate_total == old(self).rotate_total,
            final(self).enabled == old(self).enabled,
    {
        self.rotate_page = (self.rotate_page + 1) % self.rotate_total;
        self.rotate_timer = 0;
    }

    /// The current page.
    pub fn current_page(&self) -> (r: u8)
        ensures
            r == self.rotate_page,
    {
        self.rotate_page
    }

    /// Write a signed number (same as `write_number`).
    pub fn write_signed(&mut self, start_digit: u8, value: i32, dp_pos: u8)
        requires
            start_digit <= 248,
        ensures
            final(self).display_ram@ == old(self).display_ram@.update(
                0,
                old(self).display_ram[0] | number_bits(start_digit, value, dp_pos, 8),
            ),
            final(self).mode == old(self).mode,
            final(self).rotate_timer == old(self).rotate_timer,
            final(self).rotate_page == old(self).rotate_page,
            final(self).rotate_total == old(self).rotate_total,
            final(self).enabled == old(self).enabled,
    {
        self.write_number(start_digit, value, dp_pos);
    }
}

impl LcdDriver for LcdPanel {
    open spec fn update_ready(&self) -> bool {
        self.rotation_ready()
    }

    /// Enable the panel in automatic rotation every 5 s.
    fn init(&mut self)
        ensures
            final(self).enabled,
            final(self).mode == (LcdDisplayMode::AutoRotate { interval_sec: 5 }),
            final(self).display_ram == old(self).display_ram,
            final(self).rotate_timer == old(self).rotate_timer,
            final(self).rotate_page == old(self).rotate_page,
            final(self).rotate_total == old(self).rotate_total,
    {
        self.enabled = true;
        self.mode = LcdDisplayMode::AutoRotate { interval_sec: 5 };
    }

    /// Periodic update, as `tick`.
    fn update(&mut self, content: &LcdContent)
        ensures
            tick_outcome(*old(self), *final(self), *content),
    {
        self.tick(content);
    }

    /// Set the display mode and restart the rotation timer.
    fn set_mode(&mut self, mode: LcdDisplayMode)
        ensures
            final(self).mode == mode,
            final(self).rotate_timer == 0,
            final(self).display_ram == old(self).display_ram,
            final(self).rotate_page == old(self).rotate_page,
            final(self).rotate_total == old(self).rotate_total,
            final(self).enabled == old(self).enabled,
    {
        self.mode = mode;
        self.rotate_timer = 0;
    }

    /// Enable or disable the display; disabling blanks the frame.
    fn enable(&mut self, on: bool)
        ensures
            final(self).enabled == on,
            on ==> final(self).display_ram == old(self).display_ram,
            !on ==> final(self).display_ram@ == frame(0),
            final(self).mode == old(self).mode,
            final(self).rotate_timer == old(self).rotate_timer,
            final(self).rotate_page == old(self).rotate_page,
            final(self).rotate_total == old(self).rotate_total,
    {
        self.enabled = on;
        if !on {
            self.clear();
        }
    }

    /// Bias selection is fixed by the controller set-up; nothing changes.
    fn set_bias(&mut self, bias: LcdBias)
        ensures
            *final(self) == *old(self),
    {
    }
}

} // verus!
