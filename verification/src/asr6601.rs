//! ASR6601 LoRaWAN module (E78-470LN22S) over AT commands: the command
//! texts, hexadecimal encoding of keys and payloads, the reception of one
//! AT reply, and the interpretation of replies (OK, join, send, RSSI).
//! The application writes the commands and feeds each UART read to
//! `AtExchange`, which says whether the reply is complete.
use vstd::prelude::*;

use crate::at_parser::hex_digit_spec;
use crate::hal::{LorawanConfig, LorawanError, LorawanJoinMode, LorawanStatus, UartError};
use crate::quectel::{contains_bytes, occurs_at};

pub mod at;

verus! {

/// Size of the reply buffer.
pub const AT_BUF_SIZE: usize = 256;

/* ---------------- hexadecimal text ---------------- */

/// Upper-case hexadecimal text of a byte string, high nibble first.
pub open spec fn hex_of(s: Seq<u8>) -> Seq<u8>
    decreases s.len(),
{
    if s.len() == 0 {
        Seq::empty()
    } else {
        hex_of(s.drop_last()) + seq![hex_digit_spec(s.last() >> 4u8), hex_digit_spec(s.last() & 0x0Fu8)]
    }
}

/// Upper-case hexadecimal text of `bytes`.
pub fn bytes_to_hex(bytes: &[u8]) -> (r: Vec<u8>)
    ensures
        r@ == hex_of(bytes@),
{
    let mut out: Vec<u8> = Vec::new();
    let mut i: usize = 0;
    assert(bytes@.subrange(0, 0) =~= Seq::<u8>::empty());
    while i < bytes.len()
        invariant
            i <= bytes@.len(),
            out@ == hex_of(bytes@.subrange(0, i as int)),
        decreases bytes@.len() - i,
    {
        let b = bytes[i];
        let hi: u8 = b >> 4;
        let lo: u8 = b & 0x0F;
        assert(hi < 16 && lo < 16) by (bit_vector)
            requires hi == b >> 4u8, lo == b & 0x0Fu8;
        let h1: u8 = if hi < 10 { 48 + hi } else { 65 + hi - 10 };
        let h2: u8 = if lo < 10 { 48 + lo } else { 65 + lo - 10 };
        out.push(h1);
        out.push(h2);
        proof {
            let s = bytes@.subrange(0, i + 1);
            assert(s.drop_last() =~= bytes@.subrange(0, i as int));
            assert(s.last() == b);
        }
        i = i + 1;
    }
    assert(bytes@.subrange(0, bytes@.len() as int) =~= bytes@);
    out
}

/// Value of a hexadecimal digit (either case).
pub open spec fn hex_value(b: u8) -> Option<u8> {
    if 48 <= b <= 57 {
        Some((b - 48) as u8)
    } else if 97 <= b <= 102 {
        Some((b - 97 + 10) as u8)
    } else if 65 <= b <= 70 {
        Some((b - 65 + 10) as u8)
    } else {
        None
    }
}

/// Value of a hexadecimal digit; anything else is an AT error.
pub fn hex_digit(b: u8) -> (r: Result<u8, LorawanError>)
    ensures
        r == (match hex_value(b) {
            Some(v) => Ok(v),
            None => Err(LorawanError::AtError),
        }),
{
    if 48 <= b && b <= 57 {
        Ok(b - 48)
    } else if 97 <= b && b <= 102 {
        Ok(b - 97 + 10)
    } else if 65 <= b && b <= 70 {
        Ok(b - 65 + 10)
    } else {
        Err(LorawanError::AtError)
    }
}

/// Byte `i` of a hexadecimal text: the digits at `2i` and `2i + 1`.
pub open spec fn hex_byte(hex: Seq<u8>, i: int) -> u8 {
    ((hex_value(hex[2 * i]).unwrap() * 16) + hex_value(hex[2 * i + 1]).unwrap()) as u8
}

/// The first `2n` characters are hexadecimal digits.
pub open spec fn hex_pairs_valid(hex: Seq<u8>, n: int) -> bool {
    forall|k: int| 0 <= k < 2 * n ==> #[trigger] hex_value(hex[k]) is Some
}

/// Decode hexadecimal text into `out`, two digits per byte (an odd last
/// digit is ignored). Too little room, or a character that is not a
/// hexadecimal digit, is an AT error; on success the number of bytes
/// written is returned and the rest of `out` is unchanged.
pub fn hex_to_bytes(hex: &[u8], out: &mut [u8]) -> (r: Result<usize, LorawanError>)
    ensures
        final(out)@.len() == old(out)@.len(),
        r is Ok <==> (hex@.len() / 2 <= old(out)@.len() && hex_pairs_valid(hex@, (hex@.len() / 2) as int)),
        r is Err ==> r == Err::<usize, LorawanError>(LorawanError::AtError),
        r is Ok ==> {
            &&& r->Ok_0 == hex@.len() / 2
            &&& forall|k: int| 0 <= k < r->Ok_0 ==> #[trigger] final(out)@[k] == hex_byte(hex@, k)
            &&& forall|k: int| r->Ok_0 <= k < old(out)@.len() ==> #[trigger] final(out)@[k] == old(out)@[k]
        },
{
    let n = hex.len() / 2;
    if n > out.len() {
        return Err(LorawanError::AtError);
    }
    let mut i: usize = 0;
    proof {
        vstd::arithmetic::div_mod::lemma_fundamental_div_mod(hex@.len() as int, 2);
        vstd::arithmetic::div_mod::lemma_mod_pos_bound(hex@.len() as int, 2);
    }
    let len: usize = hex.len();
    while i < n
        invariant
            2 * n <= hex@.len(),
            len == hex@.len(),
            n == hex@.len() / 2,
            2 * i <= hex@.len(),
            n <= out@.len(),
            i <= n,
            out@.len() == old(out)@.len(),
            hex_pairs_valid(hex@, i as int),
            forall|k: int| 0 <= k < i ==> #[trigger] out@[k] == hex_byte(hex@, k),
            forall|k: int| i <= k < out@.len() ==> #[trigger] out@[k] == old(out)@[k],
        decreases n - i,
    {
        let hi = match hex_digit(hex[i * 2]) {
            Ok(v) => v,
            Err(e) => {
                assert(!hex_pairs_valid(hex@, n as int)) by {
                    assert(hex_value(hex@[2 * i]) is None);
                }
                return Err(e);
            },
        };
        let lo = match hex_digit(hex[i * 2 + 1]) {
            Ok(v) => v,
            Err(e) => {
                assert(!hex_pairs_valid(hex@, n as int)) by {
                    assert(hex_value(hex@[2 * i + 1]) is None);
                }
                return Err(e);
            },
        };
        assert((hi << 4u8) | lo == hi * 16 + lo) by (bit_vector)
            requires hi < 16, lo < 16;
        out[i] = (hi << 4) | lo;
        proof {
            assert forall|k: int| 0 <= k < 2 * (i + 1) implies #[trigger] hex_value(hex@[k]) is Some by {
                if k >= 2 * i {
                    assert(k == 2 * i || k == 2 * i + 1);
                }
            }
        }
        i = i + 1;
    }
    assert(i == n);
    Ok(i)
}

/* ---------------- commands ---------------- */

/// `prefix`, the hexadecimal text of `bytes`, a closing quote and CR LF.
pub open spec fn quoted_hex_command(prefix: Seq<u8>, bytes: Seq<u8>) -> Seq<u8> {
    prefix + hex_of(bytes) + seq![34u8, 13u8, 10u8]
}

/// Append `s` to `v`.
fn append(v: &mut Vec<u8>, s: &[u8])
    ensures
        final(v)@ == old(v)@ + s@,
{
    let mut i: usize = 0;
    while i < s.len()
        invariant
            i <= s@.len(),
            v@ == old(v)@ + s@.subrange(0, i as int),
        decreases s@.len() - i,
    {
        v.push(s[i]);
        i = i + 1;
    }
    assert(s@.subrange(0, s@.len() as int) =~= s@);
}

/// A copy of `s`.
fn vec_of(s: &[u8]) -> (r: Vec<u8>)
    ensures
        r@ == s@,
{
    let mut v: Vec<u8> = Vec::new();
    append(&mut v, s);
    assert(v@ =~= s@);
    v
}

/// Command `prefix` + hexadecimal of `bytes` + `"` CR LF.
pub fn quoted_hex(prefix: &[u8], bytes: &[u8]) -> (r: Vec<u8>)
    ensures
        r@ == quoted_hex_command(prefix@, bytes@),
{
    let mut v: Vec<u8> = Vec::new();
    append(&mut v, prefix);
    let h = bytes_to_hex(bytes);
    append(&mut v, h.as_slice());
    v.push(34);
    v.push(13);
    v.push(10);
    assert(v@ =~= quoted_hex_command(prefix@, bytes@));
    v
}

/// Commands of module start-up: AT test, CN470 band, class, ADR on.
pub open spec fn init_commands_spec() -> Seq<Seq<u8>> {
    seq![at::TEST@, at::SET_BAND@, at::SET_CLASS@, at::ADR_ON@]
}

/// Commands of module start-up, in order.
pub fn init_commands() -> (r: Vec<Vec<u8>>)
    ensures
        r@.len() == 4,
        forall|i: int| 0 <= i < 4 ==> #[trigger] r@[i]@ == init_commands_spec()[i],
{
    let mut r: Vec<Vec<u8>> = Vec::new();
    r.push(vec_of(&at::TEST));
    r.push(vec_of(&at::SET_BAND));
    r.push(vec_of(&at::SET_CLASS));
    r.push(vec_of(&at::ADR_ON));
    r
}

/// Commands of `configure`: OTAA mode, then the device EUI, application
/// EUI and application key in hexadecimal; ABP mode alone otherwise.
pub open spec fn configure_commands_spec(config: LorawanConfig) -> Seq<Seq<u8>> {
    match config.join_mode {
        LorawanJoinMode::Otaa => seq![
            at::SET_OTAA@,
            quoted_hex_command(at::SET_DEVEUI@, config.dev_eui@),
            quoted_hex_command(at::SET_APPEUI@, config.app_eui@),
            quoted_hex_command(at::SET_APPKEY@, config.app_key@),
        ],
        LorawanJoinMode::Abp => seq![at::SET_ABP@],
    }
}

/// Commands of `configure`, in order (each must be answered OK).
pub fn configure_commands(config: &LorawanConfig) -> (r: Vec<Vec<u8>>)
    ensures
        r@.len() == configure_commands_spec(*config).len(),
        forall|i: int| 0 <= i < r@.len() ==> #[trigger] r@[i]@ == configure_commands_spec(*config)[i],
{
    let mut r: Vec<Vec<u8>> = Vec::new();
    match config.join_mode {
        LorawanJoinMode::Otaa => {
            r.push(vec_of(&at::SET_OTAA));
            r.push(quoted_hex(&at::SET_DEVEUI, &config.dev_eui));
            r.push(quoted_hex(&at::SET_APPEUI, &config.app_eui));
            r.push(quoted_hex(&at::SET_APPKEY, &config.app_key));
        },
        LorawanJoinMode::Abp => {
            r.push(vec_of(&at::SET_ABP));
        },
    }
    r
}

/// Data command: `AT+CMSG=` (confirmed) or `AT+MSG=`, the payload in
/// quoted hexadecimal, CR LF.
pub open spec fn send_command_spec(data: Seq<u8>, confirmed: bool) -> Seq<u8> {
    (if confirmed { at::SEND_CF@ } else { at::SEND_UC@ }) + seq![34u8] + hex_of(data) + seq![34u8, 13u8, 10u8]
}

/// Data command for a payload of at most 64 bytes.
pub fn send_command(data: &[u8], confirmed: bool) -> (r: Vec<u8>)
    requires
        data@.len() <= 64,
    ensures
        r@ == send_command_spec(data@, confirmed),
{
    let mut v: Vec<u8> = Vec::new();
    if confirmed {
        append(&mut v, &at::SEND_CF);
    } else {
        append(&mut v, &at::SEND_UC);
    }
    v.push(34);
    let h = bytes_to_hex(data);
    append(&mut v, h.as_slice());
    v.push(34);
    v.push(13);
    v.push(10);
    assert(v@ =~= send_command_spec(data@, confirmed));
    v
}

/* ---------------- reply reception ---------------- */

/// Next move of a reply reception.
#[derive(Clone, Copy, Debug, PartialEq, Eq, Structural)]
pub enum AtRxStep {
    /// Read again.
    Continue,
    /// The reply is complete.
    Done,
    /// The exchange failed.
    Fail(LorawanError),
}

/// The reply ends with "OK" CR LF.
pub open spec fn ends_with_ok(s: Seq<u8>) -> bool {
    s.len() >= 4 && s.subrange(s.len() - 4, s.len() as int) == seq![79u8, 75u8, 13u8, 10u8]
}

/// Reception of one AT reply: the bytes received so far and the timeout
/// of the exchange. A read that brings data ends the reply once it ends
/// with "OK" CR LF or the buffer is full; a read timeout ends a reply
/// that has data, fails an exchange whose timeout is 0, and otherwise
/// waits again; any other UART error fails the exchange.
pub struct AtExchange {
    received: Vec<u8>,
    timeout_ms: u32,
}

/// Outcome of one read for a reception holding `received`.
pub open spec fn rx_step(received: Seq<u8>, timeout_ms: u32, event: Result<Seq<u8>, UartError>) -> (Seq<u8>, AtRxStep) {
    match event {
        Ok(data) => {
            let r = received + data;
            if ends_with_ok(r) || r.len() >= AT_BUF_SIZE - 1 {
                (r, AtRxStep::Done)
            } else {
                (r, AtRxStep::Continue)
            }
        },
        Err(UartError::RxTimeout) => {
            if received.len() > 0 {
                (received, AtRxStep::Done)
            } else if timeout_ms == 0 {
                (received, AtRxStep::Fail(LorawanError::AtTimeout))
            } else {
                (received, AtRxStep::Continue)
            }
        },
        Err(_) => (received, AtRxStep::Fail(LorawanError::AtError)),
    }
}

impl AtExchange {
    /// Bytes received so far.
    pub closed spec fn received(&self) -> Seq<u8> {
        self.received@
    }

    /// Timeout of the exchange.
    pub closed spec fn timeout(&self) -> u32 {
        self.timeout_ms
    }

    /// A reception with nothing received.
    pub fn new(timeout_ms: u32) -> (r: Self)
        ensures
            r.received() == Seq::<u8>::empty(),
            r.timeout() == timeout_ms,
    {
        AtExchange { received: Vec::new(), timeout_ms }
    }

    /// Room left in the reply buffer: the length of the next read.
    pub fn room(&self) -> (r: usize)
        requires
            self.received().len() <= AT_BUF_SIZE,
        ensures
            r == AT_BUF_SIZE - self.received().len(),
    {
        AT_BUF_SIZE - self.received.len()
    }

    /// Account for one read: `Ok(n)` with the read bytes in `data[..n]`,
    /// or the UART error.
    pub fn on_read(&mut self, result: Result<usize, UartError>, data: &[u8]) -> (r: AtRxStep)
        requires
            old(self).received().len() <= AT_BUF_SIZE,
            result is Ok ==> result->Ok_0 <= data@.len() && old(self).received().len() + result->Ok_0 <= AT_BUF_SIZE,
        ensures
            ({
                let ev = match result {
                    Ok(n) => Ok(data@.subrange(0, n as int)),
                    Err(e) => Err(e),
                };
                &&& final(self).received() == rx_step(old(self).received(), old(self).timeout(), ev).0
                &&& r == rx_step(old(self).received(), old(self).timeout(), ev).1
            }),
            final(self).timeout() == old(self).timeout(),
            final(self).received().len() <= AT_BUF_SIZE,
    {
        match result {
            Ok(n) => {
                let mut i: usize = 0;
                let ghost before = self.received@;
                while i < n
                    invariant
                        i <= n,
                        n <= data@.len(),
                        self.received@ == before + data@.subrange(0, i as int),
                        before.len() + n <= AT_BUF_SIZE,
                        self.timeout_ms == old(self).timeout_ms,
                    decreases n - i,
                {
                    self.received.push(data[i]);
                    i = i + 1;
                }
                let total = self.received.len();
                if total >= 4 {
                    let t = total - 4;
                    let ok = self.received[t] == 79 && self.received[t + 1] == 75
                        && self.received[t + 2] == 13 && self.received[t + 3] == 10;
                    proof {
                        let s = self.received@;
                        if ok {
                            assert(s.subrange(s.len() - 4, s.len() as int) =~= seq![79u8, 75u8, 13u8, 10u8]);
                        } else {
                            if s.subrange(s.len() - 4, s.len() as int) == seq![79u8, 75u8, 13u8, 10u8] {
                                assert(s.subrange(s.len() - 4, s.len() as int)[0] == s[t as int]);
                                assert(s.subrange(s.len() - 4, s.len() as int)[1] == s[t + 1]);
                                assert(s.subrange(s.len() - 4, s.len() as int)[2] == s[t + 2]);
                                assert(s.subrange(s.len() - 4, s.len() as int)[3] == s[t + 3]);
                            }
                        }
                    }
                    if ok {
                        return AtRxStep::Done;
                    }
                }
                if total >= AT_BUF_SIZE - 1 {
                    return AtRxStep::Done;
                }
                AtRxStep::Continue
            },
            Err(UartError::RxTimeout) => {
                if self.received.len() > 0 {
                    AtRxStep::Done
                } else if self.timeout_ms == 0 {
                    AtRxStep::Fail(LorawanError::AtTimeout)
                } else {
                    AtRxStep::Continue
                }
            },
            Err(_) => AtRxStep::Fail(LorawanError::AtError),
        }
    }

    /// The reply received.
    pub fn reply(&self) -> (r: &[u8])
        ensures
            r@ == self.received(),
    {
        self.received.as_slice()
    }
}

/* ---------------- reply interpretation ---------------- */

/// Whether `pat` occurs in `hay`.
pub fn contains_pattern(hay: &[u8], pat: &[u8]) -> (r: bool)
    requires
        pat@.len() > 0,
    ensures
        r == contains_bytes(hay@, pat@),
{
    let n = hay.len();
    let m = pat.len();
    if m > n {
        assert forall|i: int| !occurs_at(hay@, pat@, i) by {}
        return false;
    }
    let mut i: usize = 0;
    while i <= n - m
        invariant
            m <= n,
            n == hay@.len(),
            m == pat@.len(),
            m > 0,
            i <= n - m + 1,
            forall|k: int| 0 <= k < i ==> !occurs_at(hay@, pat@, k),
        decreases n - m + 1 - i,
    {
        let mut j: usize = 0;
        let mut same = true;
        while j < m
            invariant
                m <= n,
                i <= n - m,
                n == hay@.len(),
                m == pat@.len(),
                j <= m,
                same == (forall|t: int| 0 <= t < j ==> hay@[i + t] == pat@[t]),
            decreases m - j,
        {
            if hay[i + j] != pat[j] {
                same = false;
            }
            j = j + 1;
        }
        if same {
            assert(hay@.subrange(i as int, i + m) =~= pat@);
            assert(occurs_at(hay@, pat@, i as int));
            return true;
        }
        assert(!occurs_at(hay@, pat@, i as int)) by {
            let t = choose|t: int| 0 <= t < m && hay@[i + t] != pat@[t];
            if hay@.subrange(i as int, i + m) == pat@ {
                assert(hay@.subrange(i as int, i + m)[t] == hay@[i + t]);
            }
        }
        i = i + 1;
    }
    assert forall|k: int| !occurs_at(hay@, pat@, k) by {
        if 0 <= k < i {
        }
    }
    false
}

/// A reply is accepted when it holds "OK" anywhere.
pub fn contains_ok(buf: &[u8]) -> (r: bool)
    ensures
        r == contains_bytes(buf@, seq![79u8, 75u8]),
{
    let pat: [u8; 2] = [79, 75];
    assert(pat@ =~= seq![79u8, 75u8]);
    contains_pattern(buf, &pat)
}

/// Result of a command that must be answered OK.
pub fn reply_ok(buf: &[u8]) -> (r: Result<(), LorawanError>)
    ensures
        r == (if contains_bytes(buf@, seq![79u8, 75u8]) { Ok(()) } else { Err(LorawanError::AtError) }),
{
    if contains_ok(buf) { Ok(()) } else { Err(LorawanError::AtError) }
}

/* ---------------- RSSI text ---------------- */

/// First ':' from `i`, or the length when there is none.
pub open spec fn colon_from(s: Seq<u8>, i: int) -> int
    decreases s.len() - i,
{
    if i >= s.len() { s.len() as int } else if s[i] == 58u8 { i } else { colon_from(s, i + 1) }
}

/// First position from `j` that is not a blank or CR.
pub open spec fn skip_blanks(s: Seq<u8>, j: int) -> int
    decreases s.len() - j,
{
    if j < s.len() && (s[j] == 32u8 || s[j] == 13u8) { skip_blanks(s, j + 1) } else { j }
}

/// First position from `j` that is not a decimal digit.
pub open spec fn digits_end(s: Seq<u8>, j: int) -> int
    decreases s.len() - j,
{
    if j < s.len() && 48 <= s[j] <= 57 { digits_end(s, j + 1) } else { j }
}

/// Value of the decimal digits `s[j..k]`.
pub open spec fn digits_value(s: Seq<u8>, j: int, k: int) -> int
    decreases k - j,
{
    if k <= j { 0 } else { digits_value(s, j, k - 1) * 10 + (s[k - 1] - 48) }
}

/// Where the number after the first ':' starts (past blanks and a '-'),
/// whether it is negative, and its magnitude.
pub open spec fn rssi_field(s: Seq<u8>) -> (int, bool, int) {
    let j0 = skip_blanks(s, colon_from(s, 0) + 1);
    let neg = j0 < s.len() && s[j0] == 45u8;
    let j1 = if neg { j0 + 1 } else { j0 };
    (j1, neg, digits_value(s, j1, digits_end(s, j1)))
}

/// An RSSI reply whose number fits 16 bits (a reply without ':' always).
pub open spec fn rssi_parsable(s: Seq<u8>) -> bool {
    colon_from(s, 0) < s.len() ==> rssi_field(s).2 <= 32767
}

/// RSSI after a reply: the signed number after the first ':' (0 when no
/// digit follows), or `last` when the reply has no ':'.
pub open spec fn rssi_of(s: Seq<u8>, last: i16) -> i16 {
    if colon_from(s, 0) >= s.len() {
        last
    } else {
        let (j1, neg, v) = rssi_field(s);
        (if neg { -v } else { v }) as i16
    }
}

proof fn lemma_digits_value_nonneg(s: Seq<u8>, j: int, k: int)
    requires
        forall|t: int| j <= t < k ==> 48 <= #[trigger] s[t] <= 57,
    ensures
        digits_value(s, j, k) >= 0,
    decreases k - j,
{
    if k > j {
        lemma_digits_value_nonneg(s, j, k - 1);
    }
}

proof fn lemma_digits_value_mono(s: Seq<u8>, j: int, k: int, m: int)
    requires
        j <= k <= m,
        forall|t: int| j <= t < m ==> 48 <= #[trigger] s[t] <= 57,
    ensures
        0 <= digits_value(s, j, k) <= digits_value(s, j, m),
    decreases m - k,
{
    lemma_digits_value_nonneg(s, j, k);
    if k < m {
        lemma_digits_value_mono(s, j, k, m - 1);
        assert(48 <= s[m - 1] <= 57);
    }
}

proof fn lemma_digits_end_digits(s: Seq<u8>, j: int)
    ensures
        digits_end(s, j) >= j,
        forall|t: int| j <= t < digits_end(s, j) ==> 48 <= #[trigger] s[t] <= 57,
    decreases s.len() - j,
{
    if j < s.len() && 48 <= s[j] <= 57 {
        lemma_digits_end_digits(s, j + 1);
    }
}

/// Whether an RSSI reply can be read without overflow (see `rssi_parsable`).
pub fn rssi_fits(response: &[u8]) -> (r: bool)
    ensures
        r == rssi_parsable(response@),
{
    let (found, _neg, value, _end) = scan_rssi(response);
    !found || value <= 32767
}

/// Scan an RSSI reply: whether it has a ':', the sign, the magnitude
/// (saturated past 32767) and where the digits end.
fn scan_rssi(response: &[u8]) -> (r: (bool, bool, u32, usize))
    ensures
        r.0 == (colon_from(response@, 0) < response@.len()),
        r.0 ==> r.1 == rssi_field(response@).1,
        r.0 ==> (r.2 <= 32767 <==> rssi_field(response@).2 <= 32767),
        r.0 && r.2 <= 32767 ==> r.2 == rssi_field(response@).2,
{
    let s = response;
    let len = s.len();
    let mut i: usize = 0;
    while i < len && s[i] != 58
        invariant
            i <= len,
            len == s@.len(),
            colon_from(s@, 0) == colon_from(s@, i as int),
        decreases len - i,
    {
        i = i + 1;
    }
    if i >= len {
        return (false, false, 0, 0);
    }
    let mut j: usize = i + 1;
    while j < len && (s[j] == 32 || s[j] == 13)
        invariant
            i < len,
            i + 1 <= j <= len,
            len == s@.len(),
            skip_blanks(s@, i + 1) == skip_blanks(s@, j as int),
        decreases len - j,
    {
        j = j + 1;
    }
    let neg = j < len && s[j] == 45;
    if neg {
        j = j + 1;
    }
    let j1 = j;
    proof {
        lemma_digits_end_digits(s@, j1 as int);
    }
    let mut v: u32 = 0;
    let mut k: usize = j1;
    while k < len && 48 <= s[k] && s[k] <= 57
        invariant
            j1 <= k <= len,
            len == s@.len(),
            digits_end(s@, j1 as int) == digits_end(s@, k as int),
            forall|t: int| j1 <= t < digits_end(s@, j1 as int) ==> 48 <= #[trigger] s@[t] <= 57,
            k <= digits_end(s@, j1 as int),
            v <= 32768,
            v <= 32767 ==> v == digits_value(s@, j1 as int, k as int),
            v > 32767 ==> digits_value(s@, j1 as int, k as int) > 32767,
        decreases len - k,
    {
        let d = (s[k] - 48) as u32;
        proof {
            lemma_digits_end_digits(s@, k + 1);
            lemma_digits_value_mono(s@, j1 as int, k as int, k + 1);
        }
        if v <= 32767 {
            let nv = v * 10 + d;
            v = if nv > 32767 { 32768 } else { nv };
        }
        k = k + 1;
    }
    proof {
        if j1 <= len {
            assert(digits_end(s@, k as int) == k);
        }
    }
    (true, neg, v, k)
}

/* ---------------- module state ---------------- */

/// ASR6601 module state as the driver tracks it.
pub struct Asr6601 {
    state: LorawanStatus,
    last_rssi: i16,
}

impl Asr6601 {
    /// Tracked status.
    pub closed spec fn status_spec(&self) -> LorawanStatus {
        self.state
    }

    /// Last RSSI read (dBm).
    pub closed spec fn rssi_spec(&self) -> i16 {
        self.last_rssi
    }

    /// A module not yet joined, RSSI -127 dBm.
    pub fn new() -> (r: Self)
        ensures
            r.status_spec() == LorawanStatus::Idle,
            r.rssi_spec() == -127,
    {
        Asr6601 { state: LorawanStatus::Idle, last_rssi: -127 }
    }

    /// Tracked status.
    pub fn status(&self) -> (r: LorawanStatus)
        ensures
            r == self.status_spec(),
    {
        self.state
    }

    /// After a successful start-up the module is idle.
    pub fn init_done(&mut self)
        ensures
            final(self).status_spec() == LorawanStatus::Idle,
            final(self).rssi_spec() == old(self).rssi_spec(),
    {
        self.state = LorawanStatus::Idle;
    }

    /// A join starts: the module is joining.
    pub fn begin_join(&mut self)
        ensures
            final(self).status_spec() == LorawanStatus::Joining,
            final(self).rssi_spec() == old(self).rssi_spec(),
    {
        self.state = LorawanStatus::Joining;
    }

    /// Join reply: "oined" in it means joined, else the join failed and
    /// the module is in error.
    pub fn join_result(&mut self, reply: &[u8]) -> (r: Result<(), LorawanError>)
        ensures
            ({
                let joined = contains_bytes(reply@, seq![111u8, 105u8, 110u8, 101u8, 100u8]);
                &&& joined ==> r == Ok::<(), LorawanError>(()) && final(self).status_spec() == LorawanStatus::Joined
                &&& !joined ==> r == Err::<(), LorawanError>(LorawanError::JoinFailed)
                    && final(self).status_spec() == LorawanStatus::Error
            }),
            final(self).rssi_spec() == old(self).rssi_spec(),
    {
        let pat: [u8; 5] = [111, 105, 110, 101, 100];
        assert(pat@ =~= seq![111u8, 105u8, 110u8, 101u8, 100u8]);
        if contains_pattern(reply, &pat) {
            self.state = LorawanStatus::Joined;
            Ok(())
        } else {
            self.state = LorawanStatus::Error;
            Err(LorawanError::JoinFailed)
        }
    }

    /// A send starts: refused unless joined, else the module is sending.
    pub fn begin_send(&mut self) -> (r: Result<(), LorawanError>)
        ensures
            old(self).status_spec() != LorawanStatus::Joined ==> r == Err::<(), LorawanError>(LorawanError::NotJoined)
                && final(self).status_spec() == old(self).status_spec(),
            old(self).status_spec() == LorawanStatus::Joined ==> r == Ok::<(), LorawanError>(())
                && final(self).status_spec() == LorawanStatus::Sending,
            final(self).rssi_spec() == old(self).rssi_spec(),
    {
        match self.state {
            LorawanStatus::Joined => {
                self.state = LorawanStatus::Sending;
                Ok(())
            },
            _ => Err(LorawanError::NotJoined),
        }
    }

    /// Send reply: "Done" in it means sent; either way the module is
    /// joined again.
    pub fn send_result(&mut self, reply: &[u8]) -> (r: Result<(), LorawanError>)
        ensures
            r == (if contains_bytes(reply@, seq![68u8, 111u8, 110u8, 101u8]) { Ok::<(), LorawanError>(()) } else {
                Err(LorawanError::SendFailed) }),
            final(self).status_spec() == LorawanStatus::Joined,
            final(self).rssi_spec() == old(self).rssi_spec(),
    {
        let pat: [u8; 4] = [68, 111, 110, 101];
        assert(pat@ =~= seq![68u8, 111u8, 110u8, 101u8]);
        let done = contains_pattern(reply, &pat);
        self.state = LorawanStatus::Joined;
        if done { Ok(()) } else { Err(LorawanError::SendFailed) }
    }

    /// RSSI reply: the signed number after its first ':' becomes the last
    /// RSSI; a reply without ':' leaves it. The last RSSI is returned.
    pub fn rssi_result(&mut self, reply: &[u8]) -> (r: i16)
        requires
            rssi_parsable(reply@),
        ensures
            final(self).rssi_spec() == rssi_of(reply@, old(self).rssi_spec()),
            r == final(self).rssi_spec(),
            final(self).status_spec() == old(self).status_spec(),
    {
        let (found, neg, v, _end) = scan_rssi(reply);
        if found {
            let x: i16 = v as i16;
            self.last_rssi = if neg { -x } else { x };
        }
        self.last_rssi
    }
}

} // verus!
