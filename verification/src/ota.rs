//! Dual-bank firmware upgrade (OTA): staging area bookkeeping, image
//! header checks, anti-rollback, installation into the inactive bank and
//! upgrade history.
use vstd::prelude::*;
use vstd::slice::slice_subrange;

use crate::calibration::{le_u32_at, read_u32_le};

pub mod addr;

verus! {

/* ---------------- firmware version ---------------- */

/// Firmware version major.minor.patch.build.
#[derive(Clone, Copy, Debug)]
pub struct FirmwareVersion {
    pub major: u8,
    pub minor: u8,
    pub patch: u8,
    pub build: u8,
}

/// The version as one number: major, minor, patch and build from the most
/// significant byte down.
pub open spec fn version_number(v: FirmwareVersion) -> int {
    v.major * 0x100_0000 + v.minor * 0x1_0000 + v.patch * 0x100 + v.build
}

/// Lexicographic order of versions (major first).
pub open spec fn version_le(a: FirmwareVersion, b: FirmwareVersion) -> bool {
    ||| a.major < b.major
    ||| a.major == b.major && a.minor < b.minor
    ||| a.major == b.major && a.minor == b.minor && a.patch < b.patch
    ||| a.major == b.major && a.minor == b.minor && a.patch == b.patch && a.build <= b.build
}

/// Comparing version numbers is comparing versions field by field, major first.
pub proof fn lemma_version_number_order(a: FirmwareVersion, b: FirmwareVersion)
    ensures
        version_number(a) <= version_number(b) <==> version_le(a, b),
{
}

/// Two digits of `v` (tens, units) as ASCII; tens past 9 continue past '9'.
pub open spec fn two_digits(v: u8) -> Seq<u8> {
    seq![(48 + v / 10) as u8, (48 + v % 10) as u8]
}

/// Text form "vMM.mm.pp.bbb" of a version, zero-padded to 16 bytes.
pub open spec fn version_text(v: FirmwareVersion) -> Seq<u8> {
    seq![118u8] + two_digits(v.major) + seq![46u8] + two_digits(v.minor) + seq![46u8] + two_digits(v.patch)
        + seq![46u8, (48 + v.build / 100) as u8, (48 + (v.build / 10) % 10) as u8, (48 + v.build % 10) as u8]
        + seq![0u8, 0u8, 0u8]
}

impl FirmwareVersion {
    /// A version from its parts.
    pub fn new(major: u8, minor: u8, patch: u8, build: u8) -> (r: Self)
        ensures
            r == (FirmwareVersion { major, minor, patch, build }),
    {
        FirmwareVersion { major, minor, patch, build }
    }

    /// The version as a 32-bit number (major in the top byte).
    pub fn as_u32(&self) -> (r: u32)
        ensures
            r == version_number(*self),
    {
        let a = self.major as u32;
        let b = self.minor as u32;
        let c = self.patch as u32;
        let d = self.build as u32;
        let r = (a << 24) | (b << 16) | (c << 8) | d;
        assert(r == a * 0x100_0000 + b * 0x1_0000 + c * 0x100 + d) by (bit_vector)
            requires
                a < 256,
                b < 256,
                c < 256,
                d < 256,
                r == (a << 24) | (b << 16) | (c << 8) | d,
        ;
        r
    }

    /// Text form "vMM.mm.pp.bbb", zero-padded to 16 bytes.
    pub fn to_str(&self) -> (r: [u8; 16])
        ensures
            r@ == version_text(*self),
    {
        let mut s = [0u8; 16];
        s[0] = 118u8;
        s[1] = 48u8 + self.major / 10;
        s[2] = 48u8 + self.major % 10;
        s[3] = 46u8;
        s[4] = 48u8 + self.minor / 10;
        s[5] = 48u8 + self.minor % 10;
        s[6] = 46u8;
        s[7] = 48u8 + self.patch / 10;
        s[8] = 48u8 + self.patch % 10;
        s[9] = 46u8;
        s[10] = 48u8 + self.build / 100;
        s[11] = 48u8 + (self.build / 10) % 10;
        s[12] = 48u8 + self.build % 10;
        assert(s@ =~= version_text(*self));
        s
    }
}

/* ---------------- states and records ---------------- */

/// Upgrade state.
#[derive(Clone, Copy, Debug, PartialEq, Eq, Structural)]
pub enum OtaState {
    Idle,
    Receiving,
    Received,
    Verified,
    Installing,
    Installed,
    Failed,
}

/// Firmware image header at the start of the staging area (packed,
/// little-endian, 42 bytes).
#[derive(Clone, Copy, Debug)]
pub struct FirmwareHeader {
    pub magic: u32,
    pub version: FirmwareVersion,
    pub firmware_size: u32,
    pub crc32: u32,
    pub target_bank: u8,
    pub flags: u8,
    pub timestamp: u32,
    pub prev_version: FirmwareVersion,
    pub reserved: [u8; 16],
}

/// Version stored at `off`: major, minor, patch, build.
pub open spec fn version_at(s: Seq<u8>, off: int) -> FirmwareVersion {
    FirmwareVersion { major: s[off], minor: s[off + 1], patch: s[off + 2], build: s[off + 3] }
}

/// The header read from the first 42 bytes of `s`.
pub open spec fn header_parse(s: Seq<u8>) -> FirmwareHeader {
    FirmwareHeader {
        magic: le_u32_at(s, 0),
        version: version_at(s, 4),
        firmware_size: le_u32_at(s, 8),
        crc32: le_u32_at(s, 12),
        target_bank: s[16],
        flags: s[17],
        timestamp: le_u32_at(s, 18),
        prev_version: version_at(s, 22),
        reserved: [
            s[26], s[27], s[28], s[29], s[30], s[31], s[32], s[33],
            s[34], s[35], s[36], s[37], s[38], s[39], s[40], s[41],
        ],
    }
}

/// A usable header: the magic is present and the image fits a bank.
pub open spec fn header_valid(h: FirmwareHeader) -> bool {
    h.magic == 0x464D5441u32 && h.firmware_size <= addr::APP_MAX_SIZE
}

impl FirmwareHeader {
    /// Header magic ("ATMF" little-endian).
    pub const MAGIC: u32 = 0x464D5441;
    /// Packed header size.
    pub const SIZE: usize = 42;

    /// Magic present and image size within a bank.
    pub fn is_valid(&self) -> (r: bool)
        ensures
            r == header_valid(*self),
    {
        self.magic == Self::MAGIC && self.firmware_size <= addr::APP_MAX_SIZE
    }

    /// Read a header from the first 42 bytes of `b`.
    pub fn from_bytes(b: &[u8]) -> (r: Self)
        requires
            b@.len() >= 42,
        ensures
            r == header_parse(b@),
    {
        let r = FirmwareHeader {
            magic: read_u32_le(b, 0),
            version: FirmwareVersion { major: b[4], minor: b[5], patch: b[6], build: b[7] },
            firmware_size: read_u32_le(b, 8),
            crc32: read_u32_le(b, 12),
            target_bank: b[16],
            flags: b[17],
            timestamp: read_u32_le(b, 18),
            prev_version: FirmwareVersion { major: b[22], minor: b[23], patch: b[24], build: b[25] },
            reserved: [
                b[26], b[27], b[28], b[29], b[30], b[31], b[32], b[33],
                b[34], b[35], b[36], b[37], b[38], b[39], b[40], b[41],
            ],
        };
        assert(r.reserved@ =~= header_parse(b@).reserved@);
        assert(r.reserved == header_parse(b@).reserved);
        r
    }
}

/// One entry of the upgrade history.
#[derive(Clone, Copy, Debug)]
pub struct UpgradeRecord {
    pub from_version: FirmwareVersion,
    pub to_version: FirmwareVersion,
    pub timestamp: u32,
    pub result: u32,
    pub bank: u8,
    pub source: u8,
    pub reserved: [u8; 10],
}

/// Upgrade bookkeeping: active bank, state, progress and history (newest first).
#[derive(Clone, Copy, Debug)]
pub struct UpgradeInfo {
    pub active_bank: u8,
    pub state: OtaState,
    pub received_bytes: u32,
    pub error_code: u32,
    pub history: [UpgradeRecord; 8],
}

/// The empty history entry.
pub open spec fn record_empty() -> UpgradeRecord {
    UpgradeRecord {
        from_version: FirmwareVersion { major: 0, minor: 0, patch: 0, build: 0 },
        to_version: FirmwareVersion { major: 0, minor: 0, patch: 0, build: 0 },
        timestamp: 0,
        result: 0,
        bank: 0,
        source: 0,
        reserved: [0u8, 0u8, 0u8, 0u8, 0u8, 0u8, 0u8, 0u8, 0u8, 0u8],
    }
}

/// The history after recording `r`: `r` first, the oldest entry dropped.
pub open spec fn history_push(h: Seq<UpgradeRecord>, r: UpgradeRecord) -> Seq<UpgradeRecord> {
    seq![r] + h.subrange(0, 7)
}

/* ---------------- CRC-32 (nibble table) ---------------- */

/// Nibble table of the image CRC (reflected polynomial 0xEDB88320; entry
/// 13 differs from the standard table, so the check values differ from
/// CRC-32/ISO-HDLC).
pub const CRC32_TABLE: [u32; 16] = [
    0x00000000, 0x1DB71064, 0x3B6E20C8, 0x26D930AC, 0x76DC4190, 0x6B6B51F4, 0x4DB26158, 0x5005713C,
    0xEDB88320, 0xF00F9344, 0xD6D6A3E8, 0xCB61B38C, 0x9B64C2B0, 0x86D3CE2D, 0xA00AE278, 0xBDBDF21C,
];

/// One nibble step of the CRC register.
pub open spec fn crc_nibble_step(c: u32) -> u32 {
    (c >> 4) ^ CRC32_TABLE[(c & 0xF) as int]
}

/// `n` nibble steps.
pub open spec fn crc_nibble_steps(c: u32, n: nat) -> u32
    decreases n,
{
    if n == 0 { c } else { crc_nibble_steps(crc_nibble_step(c), (n - 1) as nat) }
}

/// Absorb one byte: eight nibble steps after xoring the byte in.
pub open spec fn ota_crc_update(crc: u32, b: u8) -> u32 {
    crc_nibble_steps(crc ^ (b as u32), 8)
}

/// Absorb all of `data`, starting from register `crc`.
pub open spec fn ota_crc_run(crc: u32, data: Seq<u8>) -> u32
    decreases data.len(),
{
    if data.len() == 0 { crc } else { ota_crc_update(ota_crc_run(crc, data.drop_last()), data.last()) }
}

/// Image CRC of `data`: start from all ones, complement at the end.
pub open spec fn ota_crc32(data: Seq<u8>) -> u32 {
    !ota_crc_run(0xFFFF_FFFFu32, data)
}

/// Absorb one byte into the CRC register.
fn crc32_update(crc: u32, byte: u8) -> (r: u32)
    ensures
        r == ota_crc_update(crc, byte),
{
    let mut c: u32 = crc ^ (byte as u32);
    let ghost start = c;
    let mut i: u32 = 0;
    while i < 8
        invariant
            i <= 8,
            crc_nibble_steps(start, 8) == crc_nibble_steps(c, (8 - i) as nat),
        decreases 8 - i,
    {
        let idx: u32 = c & 0x0F;
        assert(idx < 16) by (bit_vector)
            requires
                idx == c & 0x0F,
        ;
        c = (c >> 4) ^ CRC32_TABLE[idx as usize];
        i = i + 1;
    }
    c
}

/// Absorb a byte slice into the CRC register.
fn crc32_update_all(crc: u32, data: &[u8]) -> (r: u32)
    ensures
        r == ota_crc_run(crc, data@),
{
    let mut c = crc;
    let mut i: usize = 0;
    while i < data.len()
        invariant
            i <= data.len(),
            c == ota_crc_run(crc, data@.subrange(0, i as int)),
        decreases data.len() - i,
    {
        assert(data@.subrange(0, i + 1).drop_last() =~= data@.subrange(0, i as int));
        c = crc32_update(c, data[i]);
        i = i + 1;
    }
    assert(data@.subrange(0, data.len() as int) =~= data@);
    c
}

/// Image CRC-32 of `data` (nibble-table variant).
pub fn crc32_calc(data: &[u8]) -> (r: u32)
    ensures
        r == ota_crc32(data@),
{
    !crc32_update_all(0xFFFF_FFFF, data)
}

/// Running the CRC over two parts runs it over the whole.
pub proof fn lemma_crc_run_concat(crc: u32, a: Seq<u8>, b: Seq<u8>)
    ensures
        ota_crc_run(ota_crc_run(crc, a), b) == ota_crc_run(crc, a + b),
    decreases b.len(),
{
    if b.len() == 0 {
        assert(a + b =~= a);
    } else {
        lemma_crc_run_concat(crc, a, b.drop_last());
        assert((a + b).drop_last() =~= a + b.drop_last());
    }
}

/* ---------------- flash access ---------------- */

/// Flash operations the upgrade manager needs, implemented by the board.
pub trait OtaFlash {
    /// Read `buf.len()` bytes at `addr`.
    fn flash_read(addr: u32, buf: &mut [u8]) -> (r: Result<(), ()>)
        ensures
            final(buf)@.len() == old(buf)@.len(),
    ;
    /// Write `data` at `addr`.
    fn flash_write(addr: u32, data: &[u8]) -> Result<(), ()>;
    /// Erase the 4 KB sector at `addr`.
    fn flash_erase_sector(addr: u32) -> Result<(), ()>;
    /// The bank the system booted from.
    fn get_active_bank() -> u8;
    /// Select the bank to boot from next.
    fn set_boot_bank(bank: u8) -> Result<(), ()>;
}

/// Internal flash placeholder: every operation succeeds, bank 1 is active.
pub struct InternalFlash;

impl OtaFlash for InternalFlash {
    fn flash_read(addr: u32, buf: &mut [u8]) -> (r: Result<(), ()>)
        ensures
            r is Ok,
            final(buf)@ == old(buf)@,
    {
        Ok(())
    }

    fn flash_write(addr: u32, data: &[u8]) -> (r: Result<(), ()>)
        ensures
            r is Ok,
    {
        Ok(())
    }

    fn flash_erase_sector(addr: u32) -> (r: Result<(), ()>)
        ensures
            r is Ok,
    {
        Ok(())
    }

    fn get_active_bank() -> (r: u8)
        ensures
            r == 1,
    {
        1
    }

    fn set_boot_bank(bank: u8) -> (r: Result<(), ()>)
        ensures
            r is Ok,
    {
        Ok(())
    }
}

/* ---------------- upgrade manager ---------------- */

/// The bank an upgrade goes to: the one that is not active.
pub open spec fn other_bank(active: u8) -> u8 {
    if active == 1 { 2 } else { 1 }
}

/// Dual-bank law: an upgrade never targets the active bank, and a rollback
/// after an installation makes the bank that was active before it active
/// again.
pub proof fn lemma_rollback_undoes_install(active: u8)
    requires
        active == 1 || active == 2,
    ensures
        other_bank(active) != active,
        other_bank(other_bank(active)) == active,
{
}

/// Whether `op` leaves the flash outside `lo..hi` as it was: an erase or a
/// write inside that range, or an operation that changes nothing.
pub open spec fn op_within(op: FlashOp, lo: int, hi: int) -> bool {
    match op {
        FlashOp::Erase(a) => lo <= a && a + 0x1000 <= hi,
        FlashOp::Write(a, n) => lo <= a && a + n <= hi,
        _ => true,
    }
}

/// Every operation of `ops` leaves the flash outside `lo..hi` as it was.
pub open spec fn ops_within(ops: Seq<FlashOp>, lo: int, hi: int) -> bool {
    forall|i: int| 0 <= i < ops.len() ==> op_within(#[trigger] ops[i], lo, hi)
}

proof fn lemma_erase_ops_within(a: int, end: int, lo: int, hi: int)
    requires
        0 <= lo <= a,
        (end - a) % 0x1000 == 0,
        end <= hi <= u32::MAX,
    ensures
        ops_within(erase_ops(a, end), lo, hi),
    decreases if a < end { end - a } else { 0 },
{
    if a < end {
        lemma_erase_ops_within(a + 0x1000, end, lo, hi);
        let rest = erase_ops(a + 0x1000, end);
        let all = seq![FlashOp::Erase(a as u32)] + rest;
        assert(a + 0x1000 <= end);
        assert((a as u32) as int == a);
        assert forall|i: int| 0 <= i < all.len() implies op_within(#[trigger] all[i], lo, hi) by {
            if i > 0 {
                assert(all[i] == rest[i - 1]);
            } else {
                assert(all[0] == FlashOp::Erase(a as u32));
            }
        }
        assert(erase_ops(a, end) == all);
    }
}

proof fn lemma_copy_ops_within(src: int, dst: int, off: int, size: int, lo: int, hi: int)
    requires
        0 <= lo <= dst,
        0 <= off,
        dst + size <= hi,
        dst + size <= u32::MAX,
    ensures
        ops_within(copy_ops(src, dst, off, size), lo, hi),
    decreases size - off,
{
    if off < size {
        let c = if size - off < 256 { size - off } else { 256 };
        lemma_copy_ops_within(src, dst, off + c, size, lo, hi);
        let rest = copy_ops(src, dst, off + c, size);
        let head = seq![FlashOp::Read((src + off) as u32, c as u32), FlashOp::Write((dst + off) as u32, c as u32)];
        let all = head + rest;
        assert(((dst + off) as u32) as int == dst + off);
        assert((c as u32) as int == c);
        assert forall|i: int| 0 <= i < all.len() implies op_within(#[trigger] all[i], lo, hi) by {
            if i >= 2 {
                assert(all[i] == rest[i - 2]);
            } else {
                assert(all[i] == head[i]);
            }
        }
        assert(copy_ops(src, dst, off, size) == all);
    }
}

/// Power-loss law of the dual-bank upgrade: an installation planned while
/// `active_bank` runs erases and writes only inside the other bank (so the
/// running image stays intact whenever power fails), and selects that
/// bank for boot as its very last operation.
pub proof fn lemma_install_spares_active_bank(h: FirmwareHeader, current: FirmwareVersion, running_crc: u32, active_bank: u8)
    requires
        plan_of(h, current, running_crc, active_bank) is Ok,
    ensures
        ({
            let p = plan_of(h, current, running_crc, active_bank)->Ok_0;
            let ops = install_ops(p);
            let lo = bank_start(p.target_bank) as int;
            let hi = lo + bank_size(p.target_bank);
            &&& ops_within(ops.drop_last(), lo, hi)
            &&& hi <= bank_start(active_bank) || bank_start(active_bank) + bank_size(active_bank) <= lo
            &&& ops.last() == FlashOp::SetBoot(p.target_bank)
            &&& p.target_bank != active_bank
        }),
{
    let p = plan_of(h, current, running_crc, active_bank)->Ok_0;
    let lo = p.target_addr as int;
    let hi = lo + p.target_size;
    lemma_erase_ops_within(lo, hi, lo, hi);
    lemma_copy_ops_within(p.image_addr as int, lo, 0, p.image_size as int, lo, hi);
    let e = erase_ops(lo, hi);
    let c = copy_ops(p.image_addr as int, lo, 0, p.image_size as int);
    let ops = install_ops(p);
    assert(ops.drop_last() =~= e + c);
    assert forall|i: int| 0 <= i < (e + c).len() implies op_within(#[trigger] (e + c)[i], lo, hi) by {
        if i < e.len() {
            assert((e + c)[i] == e[i]);
        } else {
            assert((e + c)[i] == c[i - e.len()]);
        }
    }
}

/// Progress in percent of the largest image, rounded up, as the 8-bit value reported
/// (the quotient is narrowed to 8 bits before capping at 100).
pub open spec fn progress_of(received: u32) -> u8 {
    let p = ((received * 100 + addr::APP_MAX_SIZE - 1) / (addr::APP_MAX_SIZE as int)) as u8;
    if p < 100 { p } else { 100 }
}

/// The outcome of the checks before installing an image: error 1 for an
/// invalid header, 3 for a downgrade, 2 for a CRC mismatch.
pub open spec fn install_check(h: FirmwareHeader, current: FirmwareVersion, running_crc: u32) -> Result<(), u32> {
    if !header_valid(h) {
        Err(1)
    } else if version_number(h.version) < version_number(current) {
        Err(3)
    } else if running_crc != h.crc32 {
        Err(2)
    } else {
        Ok(())
    }
}

/// Outcome of the image checks of the staging area for header `h` and the
/// CRC of its image: error 1 invalid header, 2 empty image, 4 CRC mismatch.
pub open spec fn image_check(h: FirmwareHeader, image_crc: u32) -> Result<FirmwareVersion, u32> {
    if !header_valid(h) {
        Err(1)
    } else if h.firmware_size == 0 {
        Err(2)
    } else if image_crc != h.crc32 {
        Err(4)
    } else {
        Ok(h.version)
    }
}

/// The history entry of an installation of `to` into `bank` from `source`
/// (the recorded previous version is 0.2.0.0).
pub open spec fn install_record(to: FirmwareVersion, bank: u8, source: u8) -> UpgradeRecord {
    UpgradeRecord {
        from_version: FirmwareVersion { major: 0, minor: 2, patch: 0, build: 0 },
        to_version: to,
        timestamp: 0,
        result: 0,
        bank,
        source,
        reserved: [0u8, 0u8, 0u8, 0u8, 0u8, 0u8, 0u8, 0u8, 0u8, 0u8],
    }
}

/// One flash operation issued by the upgrade manager: an address and a
/// length in bytes, an erased sector, or a boot bank selection.
pub enum FlashOp {
    Read(u32, u32),
    Write(u32, u32),
    Erase(u32),
    SetBoot(u8),
    /// A read at an address that gave these bytes, and whether it succeeded
    ReadData(u32, Seq<u8>, bool),
}

/// Bytes of image chunk `j` (256 bytes, the last one partial) of an image
/// of `size` bytes.
pub open spec fn chunk_len(size: int, j: int) -> int {
    if size - 256 * j >= 256 { 256 } else { size - 256 * j }
}

/// Bytes covered by the first `j` chunks.
pub open spec fn chunks_covered(size: int, j: int) -> int {
    if 256 * j < size { 256 * j } else { size }
}

/// Successful reads of the first `k` chunks of an image of `size` bytes at
/// `base`, which gave `data`.
pub open spec fn chunk_reads(base: int, size: int, k: int, data: Seq<u8>) -> Seq<FlashOp>
    decreases k,
{
    if k <= 0 {
        Seq::empty()
    } else {
        chunk_reads(base, size, k - 1, data).push(FlashOp::ReadData(
            (base + 256 * (k - 1)) as u32,
            data.subrange(256 * (k - 1), 256 * (k - 1) + chunk_len(size, k - 1)),
            true,
        ))
    }
}

/// The reads of the first `k` chunks depend only on the bytes they cover.
proof fn lemma_chunk_reads_prefix(base: int, size: int, k: int, d1: Seq<u8>, d2: Seq<u8>)
    requires
        0 <= k,
        size >= 0,
        256 * (k - 1) < size || k == 0,
        d1.len() >= chunks_covered(size, k),
        d2.len() >= chunks_covered(size, k),
        d1.subrange(0, chunks_covered(size, k)) == d2.subrange(0, chunks_covered(size, k)),
    ensures
        chunk_reads(base, size, k, d1) == chunk_reads(base, size, k, d2),
    decreases k,
{
    if k > 0 {
        let c = chunks_covered(size, k);
        let c1 = chunks_covered(size, k - 1);
        assert(d1.subrange(0, c1) =~= d1.subrange(0, c).subrange(0, c1));
        assert(d2.subrange(0, c1) =~= d2.subrange(0, c).subrange(0, c1));
        lemma_chunk_reads_prefix(base, size, k - 1, d1, d2);
        let a = 256 * (k - 1);
        let e = a + chunk_len(size, k - 1);
        assert(d1.subrange(a, e) =~= d1.subrange(0, c).subrange(a, e));
        assert(d2.subrange(a, e) =~= d2.subrange(0, c).subrange(a, e));
    }
}

/// What `verify_ota_image` did, as the log segment `seg`, and answered,
/// `r`: the 42-byte header read at the start of the staging area (error 1
/// when that read fails); for a header that is invalid or announces no
/// image, `image_check`'s answer with nothing more read; else the image
/// read in 256-byte chunks after the header: when every read succeeded,
/// `image_check` of the header and the CRC of the bytes read, and error 3
/// right after the first failed read.
pub open spec fn image_verification(seg: Seq<FlashOp>, r: Result<FirmwareVersion, u32>) -> bool {
    &&& seg.len() >= 1
    &&& seg[0] matches FlashOp::ReadData(a, hb, ok) && {
        let h = header_parse(hb);
        let base = addr::OTA_START + 42;
        let size = h.firmware_size as int;
        &&& a == addr::OTA_START
        &&& hb.len() == 42
        &&& !ok ==> seg.len() == 1 && r == Err::<FirmwareVersion, u32>(1)
        &&& ok && (!header_valid(h) || size == 0) ==> seg.len() == 1 && r == image_check(h, 0)
        &&& ok && header_valid(h) && size > 0 && r != Err::<FirmwareVersion, u32>(3) ==> exists|data: Seq<u8>| {
            &&& data.len() == size
            &&& seg == seq![seg[0]] + #[trigger] chunk_reads(base, size, (size + 255) / 256, data)
            &&& r == image_check(h, ota_crc32(data))
        }
        &&& ok && header_valid(h) && size > 0 && r == Err::<FirmwareVersion, u32>(3) ==> exists|k: int, data: Seq<u8>| {
            &&& 0 <= k
            &&& 256 * k < size
            &&& data.len() == 256 * k
            &&& seg.drop_last() == seq![seg[0]] + #[trigger] chunk_reads(base, size, k, data)
            &&& seg.last() matches FlashOp::ReadData(a2, _, ok2) && a2 == base + 256 * k && !ok2
        }
    }
}

/// Sector erases from `a` up to, not including, `end`, one per 4 KB.
pub open spec fn erase_ops(a: int, end: int) -> Seq<FlashOp>
    decreases if a < end { end - a } else { 0 },
{
    if a < end {
        seq![FlashOp::Erase(a as u32)] + erase_ops(a + 0x1000, end)
    } else {
        Seq::empty()
    }
}

/// Copy of bytes `off..size` from `src` to `dst` in chunks of at most 256
/// bytes: for each chunk a read, then a write of the same length.
pub open spec fn copy_ops(src: int, dst: int, off: int, size: int) -> Seq<FlashOp>
    decreases size - off,
{
    if off < size {
        let c = if size - off < 256 { size - off } else { 256 };
        seq![FlashOp::Read((src + off) as u32, c as u32), FlashOp::Write((dst + off) as u32, c as u32)]
            + copy_ops(src, dst, off + c, size)
    } else {
        Seq::empty()
    }
}

/// Start address of application bank `bank` (1, else 2).
pub open spec fn bank_start(bank: u8) -> u32 {
    if bank == 1 { addr::APP1_START } else { addr::APP2_START }
}

/// Size of application bank `bank` (1, else 2).
pub open spec fn bank_size(bank: u8) -> u32 {
    if bank == 1 { addr::APP1_SIZE } else { addr::APP2_SIZE }
}

/// What an accepted image installation does: the version installed, the
/// bank it goes to with that bank's range, and where the image lies in
/// the staging area.
#[derive(Clone, Copy, Debug)]
pub struct InstallPlan {
    pub version: FirmwareVersion,
    pub target_bank: u8,
    pub target_addr: u32,
    pub target_size: u32,
    pub image_addr: u32,
    pub image_size: u32,
}

/// The plan for header `h` while `active_bank` runs, or the error code of
/// `install_check`.
pub open spec fn plan_of(h: FirmwareHeader, current: FirmwareVersion, running_crc: u32, active_bank: u8) -> Result<InstallPlan, u32> {
    match install_check(h, current, running_crc) {
        Err(e) => Err(e),
        Ok(_) => {
            let b = other_bank(active_bank);
            Ok(InstallPlan {
                version: h.version,
                target_bank: b,
                target_addr: bank_start(b),
                target_size: bank_size(b),
                image_addr: (addr::OTA_START + 42) as u32,
                image_size: h.firmware_size,
            })
        },
    }
}

/// The flash operations of carrying out plan `p`: erase the target bank,
/// copy the image into it, select it for boot.
pub open spec fn install_ops(p: InstallPlan) -> Seq<FlashOp> {
    erase_ops(p.target_addr as int, p.target_addr + p.target_size)
        + copy_ops(p.image_addr as int, p.target_addr as int, 0, p.image_size as int)
        + seq![FlashOp::SetBoot(p.target_bank)]
}

/// The flash operations of writing `len` bytes at `write_addr` in the
/// staging area: erase every sector the bytes touch, then write them.
pub open spec fn chunk_ops(write_addr: u32, len: u32) -> Seq<FlashOp> {
    erase_ops((write_addr & !0x0FFFu32) as int, (((write_addr + len - 1) as u32) & !0x0FFFu32) + 1)
        + seq![FlashOp::Write(write_addr, len)]
}

/// A sequence is a prefix of itself extended.
proof fn lemma_prefix_of_concat(a: Seq<FlashOp>, b: Seq<FlashOp>)
    ensures
        a.is_prefix_of(a + b),
{
    assert((a + b).subrange(0, a.len() as int) =~= a);
}

/// Check the header read from the staging area and plan the
/// installation: error 1 for an invalid header, 3 for a downgrade, 2 when
/// the CRC of the received bytes does not match the header's.
pub fn install_plan(header_bytes: &[u8], current: &FirmwareVersion, running_crc: u32, active_bank: u8) -> (r: Result<InstallPlan, u32>)
    requires
        header_bytes@.len() >= 42,
    ensures
        r == plan_of(header_parse(header_bytes@), *current, running_crc, active_bank),
{
    let header = FirmwareHeader::from_bytes(header_bytes);
    if !header.is_valid() {
        return Err(1);
    }
    if header.version.as_u32() < current.as_u32() {
        return Err(3);
    }
    if running_crc != header.crc32 {
        return Err(2);
    }
    let b: u8 = if active_bank == 1 { 2 } else { 1 };
    Ok(InstallPlan {
        version: header.version,
        target_bank: b,
        target_addr: if b == 1 { addr::APP1_START } else { addr::APP2_START },
        target_size: if b == 1 { addr::APP1_SIZE } else { addr::APP2_SIZE },
        image_addr: addr::OTA_START + 42,
        image_size: header.firmware_size,
    })
}

/// What a flash CRC over `size` bytes at `base` gives, given the reads it
/// made (`reads`, in order): each chunk of 256 bytes (the last one partial)
/// is read at `base + 256 * k`; the result is the image CRC of all the bytes
/// read when every read succeeds, and `Err` right after the first read that
/// fails.
pub open spec fn flash_crc_scan(base: int, size: int, reads: Seq<FlashOp>, r: Result<u32, ()>) -> bool {
    match r {
        Ok(c) => exists|data: Seq<u8>| {
            &&& data.len() == size
            &&& reads == #[trigger] chunk_reads(base, size, (size + 255) / 256, data)
            &&& c == ota_crc32(data)
        },
        Err(_) => exists|k: int, data: Seq<u8>| {
            &&& 0 <= k
            &&& 256 * k < size
            &&& data.len() == 256 * k
            &&& reads.len() >= 1
            &&& reads.drop_last() == #[trigger] chunk_reads(base, size, k, data)
            &&& reads.last() matches FlashOp::ReadData(a, b, ok) && a == base + 256 * k
                && b.len() == chunk_len(size, k) && !ok
        },
    }
}

/// Dual-bank upgrade manager over the flash operations `F`.
pub struct OtaManager<F: OtaFlash> {
    pub _flash: core::marker::PhantomData<F>,
    /// Upgrade state
    pub state: OtaState,
    /// Highest byte offset received
    pub received_bytes: u32,
    /// Bank and history bookkeeping
    pub upgrade_info: UpgradeInfo,
    /// CRC register over the bytes received so far
    pub running_crc: u32,
    /// Header bytes read by the last installation attempt (`None` when
    /// that read failed)
    pub header_read: Ghost<Option<Seq<u8>>>,
    /// Flash operations issued through the manager, oldest first
    pub flash_log: Ghost<Seq<FlashOp>>,
}

impl<F: OtaFlash> OtaManager<F> {
    /// Create an idle manager; the active bank is the one the system booted from.
    pub fn new() -> (r: Self)
        ensures
            r.state == OtaState::Idle,
            r.received_bytes == 0,
            r.running_crc == 0,
            r.upgrade_info.state == OtaState::Idle,
            r.upgrade_info.received_bytes == 0,
            r.upgrade_info.error_code == 0,
            r.upgrade_info.history@ == Seq::new(8, |i: int| record_empty()),
            r.header_read@ == None::<Seq<u8>>,
            r.flash_log@ == Seq::<FlashOp>::empty(),
            call_ensures(F::get_active_bank, (), r.upgrade_info.active_bank),
    {
        let empty = UpgradeRecord {
            from_version: FirmwareVersion::new(0, 0, 0, 0),
            to_version: FirmwareVersion::new(0, 0, 0, 0),
            timestamp: 0,
            result: 0,
            bank: 0,
            source: 0,
            reserved: [0u8, 0u8, 0u8, 0u8, 0u8, 0u8, 0u8, 0u8, 0u8, 0u8],
        };
        assert(empty.reserved@ =~= record_empty().reserved@);
        assert(empty == record_empty());
        let r = OtaManager {
            _flash: core::marker::PhantomData,
            state: OtaState::Idle,
            received_bytes: 0,
            upgrade_info: UpgradeInfo {
                active_bank: F::get_active_bank(),
                state: OtaState::Idle,
                received_bytes: 0,
                error_code: 0,
                history: [empty, empty, empty, empty, empty, empty, empty, empty],
            },
            running_crc: 0,
            header_read: Ghost(None),
            flash_log: Ghost(Seq::empty()),
        };
        assert(r.upgrade_info.history@ =~= Seq::new(8, |i: int| record_empty()));
        r
    }

    /// Upgrade state.
    pub fn state(&self) -> (r: OtaState)
        ensures
            r == self.state,
    {
        self.state
    }

    /// Active bank.
    pub fn active_bank(&self) -> (r: u8)
        ensures
            r == self.upgrade_info.active_bank,
    {
        self.upgrade_info.active_bank
    }

    /// Bytes received (highest offset written).
    pub fn received_bytes(&self) -> (r: u32)
        ensures
            r == self.received_bytes,
    {
        self.received_bytes
    }

    /// Upgrade history, newest first.
    pub fn upgrade_history(&self) -> (r: &[UpgradeRecord])
        ensures
            r@ == self.upgrade_info.history@,
    {
        vstd::array::array_as_slice(&self.upgrade_info.history)
    }

    /// Start receiving an image; refused unless idle.
    pub fn start_receive(&mut self) -> (r: Result<(), ()>)
        ensures
            old(self).state != OtaState::Idle ==> r is Err && *final(self) == *old(self),
            old(self).state == OtaState::Idle ==> r is Ok && *final(self) == (OtaManager {
                state: OtaState::Receiving,
                received_bytes: 0,
                running_crc: 0,
                ..*old(self)
            }),
    {
        if self.state != OtaState::Idle {
            return Err(());
        }
        self.state = OtaState::Receiving;
        self.received_bytes = 0;
        self.running_crc = 0;
        Ok(())
    }

    /// Write a chunk of the image at `offset` in the staging area: refused
    /// unless receiving or when the chunk would end past the area; the
    /// sectors it touches are erased, the chunk written, the running CRC
    /// advanced over it and the received size raised to its end. A flash
    /// failure is reported and leaves the bookkeeping as it was.
    pub fn write_chunk(&mut self, offset: u32, data: &[u8]) -> (r: Result<(), ()>)
        requires
            old(self).state == OtaState::Receiving ==> offset + addr::OTA_START + data@.len() <= u32::MAX,
        ensures
            old(self).state != OtaState::Receiving ==> r is Err && *final(self) == *old(self),
            old(self).state == OtaState::Receiving && offset + data@.len() > addr::OTA_SIZE ==> r is Err
                && *final(self) == *old(self),
            old(self).state == OtaState::Receiving && offset + data@.len() <= addr::OTA_SIZE ==> {
                let ops = chunk_ops((addr::OTA_START + offset) as u32, data@.len() as u32);
                &&& final(self).flash_log@.is_prefix_of(old(self).flash_log@ + ops)
                &&& r is Ok ==> final(self).flash_log@ == old(self).flash_log@ + ops
            },
            r is Err ==> *final(self) == (OtaManager { flash_log: final(self).flash_log, ..*old(self) }),
            r is Ok ==> {
                &&& old(self).state == OtaState::Receiving
                &&& offset + data@.len() <= addr::OTA_SIZE
                &&& *final(self) == (OtaManager {
                    running_crc: ota_crc_run(old(self).running_crc, data@),
                    received_bytes: if offset + data@.len() > old(self).received_bytes {
                        (offset + data@.len()) as u32
                    } else {
                        old(self).received_bytes
                    },
                    flash_log: final(self).flash_log,
                    ..*old(self)
                })
            },
    {
        if self.state != OtaState::Receiving {
            return Err(());
        }
        let len: u32 = data.len() as u32;
        let write_addr: u32 = addr::OTA_START + offset;
        if write_addr + len > addr::OTA_START + addr::OTA_SIZE {
            return Err(());
        }
        let sector_start: u32 = write_addr & !0x0FFFu32;
        let last: u32 = write_addr + len - 1;
        let sector_end: u32 = last & !0x0FFFu32;
        assert(sector_end <= last && last - sector_end < 0x1000) by (bit_vector)
            requires
                sector_end == last & !0x0FFFu32,
        ;
        assert(sector_start <= write_addr) by (bit_vector)
            requires
                sector_start == write_addr & !0x0FFFu32,
        ;
        let ghost tail = seq![FlashOp::Write(write_addr, len)];
        let ghost full = old(self).flash_log@ + chunk_ops(write_addr, len);
        let mut a: u32 = sector_start;
        proof {
            assert(full =~= self.flash_log@ + erase_ops(a as int, sector_end + 1) + tail);
        }
        while a <= sector_end
            invariant
                sector_end <= 0x10_0000,
                a <= sector_end + 0x1000,
                *self == (OtaManager { flash_log: self.flash_log, ..*old(self) }),
                old(self).state == OtaState::Receiving,
                offset + data@.len() <= addr::OTA_SIZE,
                write_addr == addr::OTA_START + offset,
                len == data@.len(),
                full == old(self).flash_log@ + chunk_ops(write_addr, len),
                full == self.flash_log@ + erase_ops(a as int, sector_end + 1) + tail,
            decreases sector_end + 0x1000 - a,
        {
            let res = F::flash_erase_sector(a);
            self.flash_log = Ghost(self.flash_log@.push(FlashOp::Erase(a)));
            proof {
                assert(full =~= self.flash_log@ + (erase_ops(a + 0x1000, sector_end + 1) + tail));
            }
            if res.is_err() {
                proof {
                    lemma_prefix_of_concat(self.flash_log@, erase_ops(a + 0x1000, sector_end + 1) + tail);
                }
                return Err(());
            }
            a = a + 0x1000;
        }
        proof {
            assert(erase_ops(a as int, sector_end + 1) =~= Seq::<FlashOp>::empty());
        }
        let res = F::flash_write(write_addr, data);
        self.flash_log = Ghost(self.flash_log@.push(FlashOp::Write(write_addr, len)));
        proof {
            assert(full =~= self.flash_log@);
            lemma_prefix_of_concat(self.flash_log@, Seq::<FlashOp>::empty());
            assert(self.flash_log@ + Seq::<FlashOp>::empty() =~= self.flash_log@);
        }
        if res.is_err() {
            return Err(());
        }
        self.running_crc = crc32_update_all(self.running_crc, data);
        let end: u32 = offset + len;
        if end > self.received_bytes {
            self.received_bytes = end;
        }
        Ok(())
    }

    /// Anti-rollback: an upgrade is allowed when the new version is not
    /// older than the current one.
    pub fn check_version_allow(current_version: &FirmwareVersion, new_version: &FirmwareVersion) -> (r: bool)
        ensures
            r == (version_number(*new_version) >= version_number(*current_version)),
            r == version_le(*current_version, *new_version),
    {
        proof {
            lemma_version_number_order(*current_version, *new_version);
        }
        new_version.as_u32() >= current_version.as_u32()
    }

    /// Progress in percent of the largest image, rounded up (0 when idle
    /// or nothing received).
    pub fn progress_percent(&self) -> (r: u8)
        ensures
            r == (if self.state == OtaState::Idle || self.received_bytes == 0 { 0 } else { progress_of(self.received_bytes) }),
            r <= 100,
    {
        if self.state == OtaState::Idle || self.received_bytes == 0 {
            return 0;
        }
        let pct: u8 = (((self.received_bytes as u64) * 100 + (addr::APP_MAX_SIZE as u64 - 1)) / (addr::APP_MAX_SIZE as u64)) as u8;
        if pct < 100 { pct } else { 100 }
    }

    /// CRC of `size` bytes of flash from `flash_addr`, read in 256-byte
    /// chunks (the last one partial) with `flash_read`; `Err` as soon as a
    /// read fails.
    pub fn compute_flash_crc(flash_addr: u32, size: u32) -> (r: Result<u32, ()>)
        requires
            size == 0 || flash_addr + 256 * ((size - 1) / 256) <= u32::MAX,
        ensures
            size == 0 ==> r == Ok::<u32, ()>(0),
            exists|reads: Seq<FlashOp>| #[trigger] flash_crc_scan(flash_addr as int, size as int, reads, r),
    {
        let mut crc: u32 = 0xFFFF_FFFF;
        let mut offset: u32 = 0;
        let ghost mut data: Seq<u8> = Seq::empty();
        let ghost mut reads: Seq<FlashOp> = Seq::empty();
        let ghost mut j: int = 0;
        let ghost base = flash_addr as int;
        let ghost sz = size as int;
        while offset < size
            invariant
                offset <= size,
                sz == size,
                base == flash_addr,
                size == 0 || flash_addr + 256 * ((size - 1) / 256) <= u32::MAX,
                0 <= j,
                offset == chunks_covered(sz, j),
                offset < size ==> offset == 256 * j,
                offset == size ==> j == (sz + 255) / 256,
                data.len() == offset,
                crc == ota_crc_run(0xFFFF_FFFFu32, data),
                reads == chunk_reads(base, sz, j, data),
            decreases size - offset,
        {
            let chunk: u32 = if size - offset < 256 { size - offset } else { 256 };
            let mut buf: Vec<u8> = vec![0u8; chunk as usize];
            assert(256 * j <= 256 * ((sz - 1) / 256)) by (nonlinear_arith)
                requires
                    256 * j < sz,
                    0 <= j,
            ;
            let read_addr: u32 = flash_addr + offset;
            let rres = F::flash_read(read_addr, buf.as_mut_slice());
            if rres.is_err() {
                proof {
                    let last = FlashOp::ReadData(read_addr, buf@, false);
                    assert((reads.push(last)).drop_last() =~= reads);
                    assert(flash_crc_scan(base, sz, reads.push(last), Err::<u32, ()>(())));
                }
                return Err(());
            }
            proof {
                let d2 = data + buf@;
                lemma_crc_run_concat(0xFFFF_FFFFu32, data, buf@);
                assert(chunks_covered(sz, j) == 256 * j);
                assert(d2.subrange(0, chunks_covered(sz, j)) =~= data);
                assert(data.subrange(0, chunks_covered(sz, j)) =~= data);
                lemma_chunk_reads_prefix(base, sz, j, data, d2);
                assert(d2.subrange(256 * j, 256 * j + chunk_len(sz, j)) =~= buf@);
                assert(chunk_reads(base, sz, j + 1, d2) == reads.push(FlashOp::ReadData(read_addr, buf@, true)));
                reads = chunk_reads(base, sz, j + 1, d2);
                data = d2;
                j = j + 1;
                if offset + chunk == size {
                    assert(j == (sz + 255) / 256);
                }
            }
            crc = crc32_update_all(crc, buf.as_slice());
            offset = offset + chunk;
        }
        proof {
            if size == 0 {
                assert(!0xFFFF_FFFFu32 == 0u32) by (bit_vector);
                assert(j == 0);
            }
            assert(ota_crc32(data) == !crc);
            assert(flash_crc_scan(base, sz, reads, Ok::<u32, ()>(!crc)));
        }
        Ok(!crc)
    }

    /// Final checks of a staged image, given its header and the CRC of its
    /// image bytes: error 1 invalid header, 2 empty image, 4 CRC mismatch,
    /// else the image's version.
    pub fn check_image(header: &FirmwareHeader, image_crc: u32) -> (r: Result<FirmwareVersion, u32>)
        ensures
            r == image_check(*header, image_crc),
    {
        if !header.is_valid() {
            return Err(1);
        }
        if header.firmware_size == 0 {
            return Err(2);
        }
        if image_crc != header.crc32 {
            return Err(4);
        }
        Ok(header.version)
    }

    /// Check the image in the staging area: read its header, then its
    /// bytes in 256-byte chunks, and check them with `check_image` (error 3
    /// when an image read fails, 1 when the header read fails); see
    /// `image_verification`.
    pub fn verify_ota_image(&mut self) -> (r: Result<FirmwareVersion, u32>)
        ensures
            final(self).flash_log@.subrange(0, old(self).flash_log@.len() as int) == old(self).flash_log@,
            image_verification(
                final(self).flash_log@.subrange(old(self).flash_log@.len() as int, final(self).flash_log@.len() as int),
                r,
            ),
            *final(self) == (OtaManager { flash_log: final(self).flash_log, ..*old(self) }),
            r matches Err(e) ==> 1 <= e <= 4,
    {
        let ghost l0 = self.flash_log@;
        let ghost n = l0.len() as int;
        let mut header_buf: Vec<u8> = vec![0u8; FirmwareHeader::SIZE];
        let hres = F::flash_read(addr::OTA_START, header_buf.as_mut_slice());
        self.flash_log = Ghost(self.flash_log@.push(FlashOp::ReadData(addr::OTA_START, header_buf@, hres.is_ok())));
        let ghost first = self.flash_log@[n];
        proof {
            assert(self.flash_log@.subrange(0, n) =~= l0);
            assert(self.flash_log@.subrange(n, self.flash_log@.len() as int) =~= seq![first]);
        }
        if hres.is_err() {
            return Err(1);
        }
        let header = FirmwareHeader::from_bytes(header_buf.as_slice());
        if !header.is_valid() {
            return Err(1);
        }
        if header.firmware_size == 0 {
            return Err(2);
        }
        let ghost size = header.firmware_size as int;
        let ghost base = addr::OTA_START + 42;
        let ghost hb = header_buf@;
        let firmware_start: u32 = addr::OTA_START + (FirmwareHeader::SIZE as u32);
        let mut crc: u32 = 0xFFFF_FFFF;
        let mut offset: u32 = 0;
        let ghost mut data: Seq<u8> = Seq::empty();
        let ghost mut j: int = 0;
        proof {
            assert(self.flash_log@ =~= l0 + seq![first] + chunk_reads(base, size, 0, data));
        }
        while offset < header.firmware_size
            invariant
                offset <= header.firmware_size,
                header.firmware_size <= addr::APP_MAX_SIZE,
                header.firmware_size > 0,
                size == header.firmware_size,
                firmware_start == addr::OTA_START + 42,
                base == addr::OTA_START + 42,
                0 <= j,
                offset == chunks_covered(size, j),
                offset < size ==> offset == 256 * j,
                offset == size ==> 256 * (j - 1) < size,
                data.len() == offset,
                crc == ota_crc_run(0xFFFF_FFFFu32, data),
                self.flash_log@ == l0 + seq![first] + chunk_reads(base, size, j, data),
                *self == (OtaManager { flash_log: self.flash_log, ..*old(self) }),
                n == l0.len(),
                l0 == old(self).flash_log@,
                first == FlashOp::ReadData(addr::OTA_START, hb, true),
                hb.len() == 42,
                header == header_parse(hb),
                header_valid(header),
            decreases header.firmware_size - offset,
        {
            let chunk: u32 = if header.firmware_size - offset < 256 { header.firmware_size - offset } else { 256 };
            let mut buf: Vec<u8> = vec![0u8; chunk as usize];
            let read_addr: u32 = firmware_start + offset;
            let rres = F::flash_read(read_addr, buf.as_mut_slice());
            let ghost before = self.flash_log@;
            self.flash_log = Ghost(self.flash_log@.push(FlashOp::ReadData(read_addr, buf@, rres.is_ok())));
            if rres.is_err() {
                proof {
                    assert(self.flash_log@.drop_last() =~= before);
                    assert(self.flash_log@.subrange(0, n) =~= l0);
                    let seg = self.flash_log@.subrange(n, self.flash_log@.len() as int);
                    assert(seg.drop_last() =~= seq![first] + chunk_reads(base, size, j, data));
                    assert(seg[0] == first);
                    assert(seg.last() == FlashOp::ReadData(read_addr, buf@, false));
                }
                return Err(3);
            }
            proof {
                let d2 = data + buf@;
                lemma_crc_run_concat(0xFFFF_FFFFu32, data, buf@);
                assert(chunks_covered(size, j) =~= 256 * j);
                assert(d2.subrange(0, chunks_covered(size, j)) =~= data);
                assert(data.subrange(0, chunks_covered(size, j)) =~= data);
                lemma_chunk_reads_prefix(base, size, j, data, d2);
                assert(d2.subrange(256 * j, 256 * j + chunk_len(size, j)) =~= buf@);
                assert(self.flash_log@ =~= l0 + seq![first] + chunk_reads(base, size, j + 1, d2));
                data = d2;
                j = j + 1;
            }
            crc = crc32_update_all(crc, buf.as_slice());
            offset = offset + chunk;
        }
        proof {
            assert(self.flash_log@.subrange(0, n) =~= l0);
            let seg = self.flash_log@.subrange(n, self.flash_log@.len() as int);
            assert(j == (size + 255) / 256);
            assert(seg =~= seq![first] + chunk_reads(base, size, (size + 255) / 256, data));
        }
        Self::check_image(&header, !crc)
    }

    /// Install the received image with anti-rollback: only while
    /// receiving (else the state is returned as the error). The 42-byte
    /// header is read from the start of the staging area (error 1 when the
    /// read fails) and checked by `install_plan` (error 1 invalid header, 3
    /// downgrade, 2 CRC of the received bytes mismatch); then the inactive
    /// bank is erased (error 4), the image copied into it in 256-byte
    /// chunks (error 5), the upgrade recorded at the front of the history
    /// and the inactive bank selected for boot (error 6). On success the
    /// state is `Installed` and the other bank active; on an error the
    /// state is `Failed` with the error code set.
    #[verifier::rlimit(50)]
    pub fn finalize_and_install_with_version_check(
        &mut self,
        source: u8,
        current_version: &FirmwareVersion,
    ) -> (r: Result<OtaState, OtaState>)
        ensures
            old(self).state != OtaState::Receiving ==> r == Err::<OtaState, OtaState>(old(self).state)
                && *final(self) == *old(self),
            final(self).received_bytes == old(self).received_bytes,
            final(self).running_crc == old(self).running_crc,
            old(self).state == OtaState::Receiving ==> {
                let read = old(self).flash_log@.push(FlashOp::Read(addr::OTA_START, 42));
                match final(self).header_read@ {
                    None => {
                        &&& r == Err::<OtaState, OtaState>(OtaState::Failed)
                        &&& final(self).state == OtaState::Failed
                        &&& final(self).upgrade_info == (UpgradeInfo { error_code: 1, ..old(self).upgrade_info })
                        &&& final(self).flash_log@ == read
                    },
                    Some(bytes) => {
                        &&& bytes.len() == 42
                        &&& match plan_of(header_parse(bytes), *current_version, old(self).running_crc, old(self).upgrade_info.active_bank) {
                            Err(e) => {
                                &&& r == Err::<OtaState, OtaState>(OtaState::Failed)
                                &&& final(self).state == OtaState::Failed
                                &&& final(self).upgrade_info == (UpgradeInfo { error_code: e, ..old(self).upgrade_info })
                                &&& final(self).flash_log@ == read
                            },
                            Ok(p) => {
                                &&& final(self).flash_log@.is_prefix_of(read + install_ops(p))
                                &&& r is Ok ==> {
                                    &&& r == Ok::<OtaState, OtaState>(OtaState::Installed)
                                    &&& final(self).state == OtaState::Installed
                                    &&& final(self).flash_log@ == read + install_ops(p)
                                    &&& final(self).upgrade_info.active_bank == p.target_bank
                                    &&& final(self).upgrade_info.error_code == old(self).upgrade_info.error_code
                                    &&& final(self).upgrade_info.history@ == history_push(
                                        old(self).upgrade_info.history@,
                                        install_record(p.version, p.target_bank, source),
                                    )
                                }
                                &&& r is Err ==> {
                                    &&& r == Err::<OtaState, OtaState>(OtaState::Failed)
                                    &&& final(self).state == OtaState::Failed
                                    &&& 4 <= final(self).upgrade_info.error_code <= 6
                                    &&& final(self).upgrade_info.active_bank == old(self).upgrade_info.active_bank
                                }
                            },
                        }
                    },
                }
            },
    {
        if self.state != OtaState::Receiving {
            return Err(self.state);
        }
        self.state = OtaState::Received;

        let mut header_buf: Vec<u8> = vec![0u8; FirmwareHeader::SIZE];
        let read_result = F::flash_read(addr::OTA_START, header_buf.as_mut_slice());
        self.flash_log = Ghost(self.flash_log@.push(FlashOp::Read(addr::OTA_START, 42)));
        let ghost read = self.flash_log@;
        if read_result.is_err() {
            self.header_read = Ghost(None);
            self.state = OtaState::Failed;
            self.upgrade_info.error_code = 1;
            return Err(self.state);
        }
        self.header_read = Ghost(Some(header_buf@));
        let plan = match install_plan(header_buf.as_slice(), current_version, self.running_crc, self.upgrade_info.active_bank) {
            Ok(p) => p,
            Err(e) => {
                self.state = OtaState::Failed;
                self.upgrade_info.error_code = e;
                return Err(self.state);
            },
        };
        let ghost full = read + install_ops(plan);
        let ghost copies = copy_ops(plan.image_addr as int, plan.target_addr as int, 0, plan.image_size as int);
        let ghost tail = seq![FlashOp::SetBoot(plan.target_bank)];

        self.state = OtaState::Verified;
        self.state = OtaState::Installing;
        let target_addr: u32 = plan.target_addr;
        let target_end: u32 = plan.target_addr + plan.target_size;
        let mut erase_addr: u32 = target_addr;
        proof {
            assert(full =~= self.flash_log@ + erase_ops(erase_addr as int, target_end as int) + copies + tail);
        }
        while erase_addr < target_end
            invariant
                target_end <= 0x8_0000,
                erase_addr <= target_end + 0x1000,
                self.state == OtaState::Installing,
                old(self).state == OtaState::Receiving,
                self.received_bytes == old(self).received_bytes,
                self.running_crc == old(self).running_crc,
                self.upgrade_info == old(self).upgrade_info,
                self.header_read@ == Some(header_buf@),
                header_buf@.len() == 42,
                plan_of(header_parse(header_buf@), *current_version, old(self).running_crc, old(self).upgrade_info.active_bank)
                    == Ok::<InstallPlan, u32>(plan),
                read == old(self).flash_log@.push(FlashOp::Read(addr::OTA_START, 42)),
                full == read + install_ops(plan),
                full == self.flash_log@ + erase_ops(erase_addr as int, target_end as int) + copies + tail,
            decreases target_end + 0x1000 - erase_addr,
        {
            let res = F::flash_erase_sector(erase_addr);
            let ghost before = self.flash_log@;
            self.flash_log = Ghost(self.flash_log@.push(FlashOp::Erase(erase_addr)));
            proof {
                assert(full =~= self.flash_log@ + erase_ops(erase_addr + 0x1000, target_end as int) + copies + tail);
            }
            if res.is_err() {
                proof {
                    lemma_prefix_of_concat(self.flash_log@, erase_ops(erase_addr + 0x1000, target_end as int) + copies + tail);
                    assert(full =~= self.flash_log@ + (erase_ops(erase_addr + 0x1000, target_end as int) + copies + tail));
                }
                self.state = OtaState::Failed;
                self.upgrade_info.error_code = 4;
                return Err(self.state);
            }
            erase_addr = erase_addr + 0x1000;
        }
        proof {
            assert(erase_ops(erase_addr as int, target_end as int) =~= Seq::<FlashOp>::empty());
            assert(full =~= self.flash_log@ + copies + tail);
        }

        let firmware_start: u32 = plan.image_addr;
        let firmware_end: u32 = firmware_start + plan.image_size;
        let mut copy_addr: u32 = firmware_start;
        while copy_addr < firmware_end
            invariant
                firmware_start <= copy_addr <= firmware_end,
                firmware_end == firmware_start + plan.image_size,
                firmware_start == addr::OTA_START + 42,
                plan.image_addr == firmware_start,
                plan.image_size <= addr::APP_MAX_SIZE,
                target_addr == plan.target_addr,
                target_addr <= addr::APP2_START,
                self.state == OtaState::Installing,
                old(self).state == OtaState::Receiving,
                self.received_bytes == old(self).received_bytes,
                self.running_crc == old(self).running_crc,
                self.upgrade_info == old(self).upgrade_info,
                self.header_read@ == Some(header_buf@),
                header_buf@.len() == 42,
                plan_of(header_parse(header_buf@), *current_version, old(self).running_crc, old(self).upgrade_info.active_bank)
                    == Ok::<InstallPlan, u32>(plan),
                read == old(self).flash_log@.push(FlashOp::Read(addr::OTA_START, 42)),
                full == read + install_ops(plan),
                full == self.flash_log@ + copy_ops(firmware_start as int, target_addr as int, copy_addr - firmware_start, plan.image_size as int) + tail,
            decreases firmware_end - copy_addr,
        {
            let remaining: u32 = firmware_end - copy_addr;
            let chunk_size: u32 = if remaining < 256 { remaining } else { 256 };
            let ghost off = copy_addr - firmware_start;
            let ghost rest = copy_ops(firmware_start as int, target_addr as int, off + chunk_size, plan.image_size as int);
            let mut buf: Vec<u8> = vec![0u8; chunk_size as usize];
            let rd = F::flash_read(copy_addr, buf.as_mut_slice());
            self.flash_log = Ghost(self.flash_log@.push(FlashOp::Read(copy_addr, chunk_size)));
            let dst: u32 = target_addr + (copy_addr - firmware_start);
            proof {
                assert(full =~= self.flash_log@ + (seq![FlashOp::Write(dst, chunk_size)] + rest + tail));
            }
            if rd.is_err() {
                proof {
                    lemma_prefix_of_concat(self.flash_log@, seq![FlashOp::Write(dst, chunk_size)] + rest + tail);
                }
                self.state = OtaState::Failed;
                self.upgrade_info.error_code = 5;
                return Err(self.state);
            }
            let wr = F::flash_write(dst, buf.as_slice());
            self.flash_log = Ghost(self.flash_log@.push(FlashOp::Write(dst, chunk_size)));
            proof {
                assert(full =~= self.flash_log@ + (rest + tail));
            }
            if wr.is_err() {
                proof {
                    lemma_prefix_of_concat(self.flash_log@, rest + tail);
                }
                self.state = OtaState::Failed;
                self.upgrade_info.error_code = 5;
                return Err(self.state);
            }
            copy_addr = copy_addr + chunk_size;
        }
        proof {
            assert(copy_ops(firmware_start as int, target_addr as int, copy_addr - firmware_start, plan.image_size as int)
                =~= Seq::<FlashOp>::empty());
        }

        let record = UpgradeRecord {
            from_version: FirmwareVersion::new(0, 2, 0, 0),
            to_version: plan.version,
            timestamp: 0,
            result: 0,
            bank: plan.target_bank,
            source,
            reserved: [0u8, 0u8, 0u8, 0u8, 0u8, 0u8, 0u8, 0u8, 0u8, 0u8],
        };
        assert(record.reserved@ =~= install_record(plan.version, plan.target_bank, source).reserved@);
        assert(record == install_record(plan.version, plan.target_bank, source));
        self.push_history(record);
        let boot = F::set_boot_bank(plan.target_bank);
        self.flash_log = Ghost(self.flash_log@.push(FlashOp::SetBoot(plan.target_bank)));
        proof {
            assert(full =~= self.flash_log@);
            lemma_prefix_of_concat(self.flash_log@, Seq::<FlashOp>::empty());
            assert(self.flash_log@ + Seq::<FlashOp>::empty() =~= self.flash_log@);
        }
        if boot.is_err() {
            self.state = OtaState::Failed;
            self.upgrade_info.error_code = 6;
            return Err(self.state);
        }
        self.state = OtaState::Installed;
        self.upgrade_info.active_bank = plan.target_bank;
        Ok(self.state)
    }

    /// Mark the staging area invalid by erasing its header sector; the
    /// erase's result is returned.
    pub fn clear_ota_area(&mut self) -> (r: Result<(), ()>)
        ensures
            final(self).flash_log@ == old(self).flash_log@.push(FlashOp::Erase(addr::OTA_START)),
            *final(self) == (OtaManager { flash_log: final(self).flash_log, ..*old(self) }),
    {
        let r = F::flash_erase_sector(addr::OTA_START);
        self.flash_log = Ghost(self.flash_log@.push(FlashOp::Erase(addr::OTA_START)));
        r
    }

    /// The bank an upgrade goes to.
    pub fn target_bank(&self) -> (r: u8)
        ensures
            r == other_bank(self.upgrade_info.active_bank),
    {
        if self.upgrade_info.active_bank == 1 { 2 } else { 1 }
    }

    /// Boot from the other bank next time: the other bank is handed to
    /// the flash's boot selection and, when that succeeds, becomes the
    /// active bank.
    pub fn rollback(&mut self) -> (r: Result<(), ()>)
        ensures
            final(self).flash_log@ == old(self).flash_log@.push(FlashOp::SetBoot(other_bank(old(self).upgrade_info.active_bank))),
            r is Ok ==> *final(self) == (OtaManager {
                upgrade_info: UpgradeInfo { active_bank: other_bank(old(self).upgrade_info.active_bank), ..old(self).upgrade_info },
                flash_log: final(self).flash_log,
                ..*old(self)
            }),
            r is Err ==> *final(self) == (OtaManager { flash_log: final(self).flash_log, ..*old(self) }),
    {
        let rollback_bank: u8 = self.target_bank();
        let res = F::set_boot_bank(rollback_bank);
        self.flash_log = Ghost(self.flash_log@.push(FlashOp::SetBoot(rollback_bank)));
        if res.is_err() {
            return Err(());
        }
        self.upgrade_info.active_bank = rollback_bank;
        Ok(())
    }

    /// Record an upgrade at the front of the history, dropping the oldest.
    fn push_history(&mut self, record: UpgradeRecord)
        ensures
            final(self).upgrade_info.history@ == history_push(old(self).upgrade_info.history@, record),
            *final(self) == (OtaManager {
                upgrade_info: UpgradeInfo { history: final(self).upgrade_info.history, ..old(self).upgrade_info },
                ..*old(self)
            }),
    {
        let mut i: usize = 7;
        while i > 0
            invariant
                i <= 7,
                forall|j: int| i < j < 8 ==> #[trigger] self.upgrade_info.history@[j] == old(self).upgrade_info.history@[j - 1],
                forall|j: int| 0 <= j <= i ==> #[trigger] self.upgrade_info.history@[j] == old(self).upgrade_info.history@[j],
                *self == (OtaManager {
                    upgrade_info: UpgradeInfo { history: self.upgrade_info.history, ..old(self).upgrade_info },
                    ..*old(self)
                }),
            decreases i,
        {
            self.upgrade_info.history[i] = self.upgrade_info.history[i - 1];
            i = i - 1;
        }
        self.upgrade_info.history[0] = record;
        assert(self.upgrade_info.history@ =~= history_push(old(self).upgrade_info.history@, record));
    }
}

} // verus!
