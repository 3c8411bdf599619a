//! Bootloader logic: find a staged image in the OTA area, check its CRC,
//! copy it page by page to the normal area, check the copy, and decide
//! whether to start the application, fall back to the old image, or stop.
//! The flash itself is reached through `BootFlash`, implemented by the
//! application.
use vstd::prelude::*;

use crate::calibration::{le_u32_at, read_u32_le};
use crate::event_detect::{crc32, crc32_spec};

verus! {

/// Start of flash.
pub const FLASH_BASE: u32 = 0x0000_0000;
/// Bootloader area.
pub const BOOT_BASE: u32 = 0x0000_0000;
/// Bootloader size (16 KB).
pub const BOOT_SIZE: u32 = 16384;
/// Normal (application) area.
pub const NORMAL_BASE: u32 = 0x0000_4000;
/// Normal area size (128 KB).
pub const NORMAL_SIZE: u32 = 131072;
/// OTA staging area.
pub const OTA_BASE: u32 = 0x0002_4000;
/// OTA area size (128 KB).
pub const OTA_SIZE: u32 = 131072;
/// Parameter area.
pub const PARAM_BASE: u32 = 0x0004_4000;
/// Parameter area size (16 KB).
pub const PARAM_SIZE: u32 = 16384;
/// Header magic "FTMR".
pub const OTA_MAGIC: u32 = 0x4654_4D52;
/// Size of the header at the start of the OTA area.
pub const OTA_HEADER_SIZE: u32 = 32;
/// Flash page (programming unit).
pub const FLASH_PAGE_SIZE: u32 = 512;
/// Flash sector (erase unit).
pub const FLASH_SECTOR_SIZE: u32 = 2048;

/// Header of a staged image (32 bytes, little-endian).
#[derive(Clone, Copy, Debug)]
pub struct OtaHeader {
    /// Magic "FTMR".
    pub magic: u32,
    /// Image size in bytes, header excluded.
    pub firmware_size: u32,
    /// CRC-32 of the image.
    pub firmware_crc: u32,
    /// Image version.
    pub version: [u8; 4],
    /// Build time (Unix seconds).
    pub build_timestamp: u32,
    /// Hash of the hardware bill of materials.
    pub hardware_hash: u32,
    /// Reserved.
    pub reserved: [u32; 2],
}

/// Outcome of the boot sequence.
#[derive(Clone, Copy, Debug, PartialEq, Eq, Structural)]
pub enum BootStatus {
    /// No staged image: start the application.
    NormalBoot,
    /// Copying a staged image.
    OtaCopying,
    /// Image installed: start the application.
    OtaDone,
    /// Copy failed, the old image is intact: start it.
    OtaFailedRollback,
    /// Copy failed and the old image is damaged.
    FatalError,
}

/// Flash access of the bootloader, implemented by the application.
pub trait BootFlash {
    /// Erases and page programs done on the flash so far, oldest first.
    /// The default records nothing; an implementation that is itself
    /// verified overrides it with its own record, and one that is not is
    /// trusted to keep the contracts below over some record.
    open spec fn changes(&self) -> Seq<BootOp> {
        Seq::empty()
    }

    /// The byte stored at `addr`.
    fn read_byte(&self, addr: u32) -> u8;
    /// Erase the 2 KB sector at `addr`.
    fn erase_sector(&mut self, addr: u32)
        ensures
            final(self).changes() == old(self).changes().push(BootOp::Erase(addr)),
    ;
    /// Program the 512-byte page at `addr` (erased beforehand).
    fn write_page(&mut self, addr: u32, data: &[u8])
        ensures
            final(self).changes() == old(self).changes().push(BootOp::Write(addr, data@)),
    ;
}

/// Header stored in 32 bytes.
pub open spec fn header_of(b: Seq<u8>) -> OtaHeader {
    OtaHeader {
        magic: le_u32_at(b, 0),
        firmware_size: le_u32_at(b, 4),
        firmware_crc: le_u32_at(b, 8),
        version: [b[12], b[13], b[14], b[15]],
        build_timestamp: le_u32_at(b, 16),
        hardware_hash: le_u32_at(b, 20),
        reserved: [le_u32_at(b, 24), le_u32_at(b, 28)],
    }
}

/// Decode a header from its 32 stored bytes.
pub fn parse_ota_header(b: &[u8]) -> (r: OtaHeader)
    requires
        b@.len() >= 32,
    ensures
        r == header_of(b@),
{
    OtaHeader {
        magic: read_u32_le(b, 0),
        firmware_size: read_u32_le(b, 4),
        firmware_crc: read_u32_le(b, 8),
        version: [b[12], b[13], b[14], b[15]],
        build_timestamp: read_u32_le(b, 16),
        hardware_hash: read_u32_le(b, 20),
        reserved: [read_u32_le(b, 24), read_u32_le(b, 28)],
    }
}

/// A header that announces an image the OTA area can hold.
pub open spec fn header_usable(h: OtaHeader) -> bool {
    h.magic == OTA_MAGIC && 0 < h.firmware_size <= OTA_SIZE
}

/// Units of `unit` bytes needed for `size` bytes.
pub open spec fn units_for(size: int, unit: int) -> int {
    (size + unit - 1) / unit
}

/// Bytes of page `i` taken from an image of `size` bytes: a whole page,
/// except a last partial page.
pub open spec fn page_len(size: int, i: int) -> int {
    if size - 512 * i >= 512 { 512 } else { size - 512 * i }
}

/// Pages of 512 bytes: `size` is more than the first `pages - 1` of them
/// and at most all of them.
proof fn lemma_pages(size: int)
    requires
        0 <= size,
    ensures
        512 * units_for(size, 512) >= size,
        size > 0 ==> 512 * (units_for(size, 512) - 1) < size,
        units_for(size, 512) >= 0,
{
    let k = units_for(size, 512);
    vstd::arithmetic::div_mod::lemma_fundamental_div_mod(size + 511, 512);
    vstd::arithmetic::div_mod::lemma_mod_pos_bound(size + 511, 512);
}

/// Bytes taken into page `i` of an image of `size` bytes.
pub fn copy_len(size: usize, i: usize) -> (r: usize)
    requires
        size <= NORMAL_SIZE,
        i < units_for(size as int, 512),
    ensures
        r == page_len(size as int, i as int),
        0 < r <= 512,
{
    proof {
        lemma_pages(size as int);
        assert(512 * (i as int) <= 512 * (units_for(size as int, 512) - 1));
    }
    let rest: usize = size - 512 * i;
    if rest >= 512 {
        512
    } else {
        rest
    }
}

/// Outcome after a failed copy: the old image is intact when the CRC of
/// the normal area is what it was before.
pub open spec fn rollback_status(old_crc: u32, current_crc: u32) -> BootStatus {
    if current_crc == old_crc { BootStatus::OtaFailedRollback } else { BootStatus::FatalError }
}

/// Outcome after a failed copy (see `rollback_status`).
pub fn rollback_outcome(old_crc: u32, current_crc: u32) -> (r: BootStatus)
    ensures
        r == rollback_status(old_crc, current_crc),
{
    if current_crc == old_crc { BootStatus::OtaFailedRollback } else { BootStatus::FatalError }
}

/// Whether the bootloader starts the application after `status`.
pub open spec fn starts_app(status: BootStatus) -> bool {
    status == BootStatus::NormalBoot || status == BootStatus::OtaDone || status == BootStatus::OtaFailedRollback
}

/// Whether the bootloader starts the application after `status` (the old
/// image after a rolled-back copy); otherwise it stops.
pub fn jumps_to_app(status: BootStatus) -> (r: bool)
    ensures
        r == starts_app(status),
{
    match status {
        BootStatus::NormalBoot | BootStatus::OtaDone | BootStatus::OtaFailedRollback => true,
        BootStatus::OtaCopying | BootStatus::FatalError => false,
    }
}

/* ---------------- flash operations ---------------- */

/// One operation of the bootloader on the flash: a byte read with the
/// value it gave, a sector erase, a page program with its bytes.
pub enum BootOp {
    Read(u32, u8),
    Erase(u32),
    Write(u32, Seq<u8>),
}

/// Reads of `bytes.len()` bytes from `addr` on that gave `bytes`.
pub open spec fn reads_of(addr: int, bytes: Seq<u8>) -> Seq<BootOp> {
    Seq::new(bytes.len(), |i: int| BootOp::Read((addr + i) as u32, bytes[i]))
}

/// The erases and page programs among `ops`, in order.
pub open spec fn changes_of(ops: Seq<BootOp>) -> Seq<BootOp>
    decreases ops.len(),
{
    if ops.len() == 0 {
        Seq::empty()
    } else if ops.last() is Read {
        changes_of(ops.drop_last())
    } else {
        changes_of(ops.drop_last()).push(ops.last())
    }
}

/// The bootloader's flash, with the operations done on it so far.
pub struct BootDevice<F: BootFlash> {
    flash: F,
    ops: Ghost<Seq<BootOp>>,
    prior: Ghost<Seq<BootOp>>,
}

impl<F: BootFlash> BootDevice<F> {
    /// The flash.
    pub closed spec fn device(&self) -> F {
        self.flash
    }

    /// Operations done on the flash through this device, oldest first.
    pub closed spec fn ops(&self) -> Seq<BootOp> {
        self.ops@
    }

    /// The flash's own record of erases and programs when the device took it.
    pub closed spec fn prior_changes(&self) -> Seq<BootOp> {
        self.prior@
    }

    /// The erases and programs among the device's operations are those the
    /// flash itself records since the device took it.
    pub open spec fn wf(&self) -> bool {
        self.device().changes() == self.prior_changes() + changes_of(self.ops())
    }

    /// A device over `flash`, with nothing done yet.
    pub fn new(flash: F) -> (r: Self)
        ensures
            r.device() == flash,
            r.ops() == Seq::<BootOp>::empty(),
            r.prior_changes() == flash.changes(),
            r.wf(),
    {
        let r = BootDevice { flash, ops: Ghost(Seq::empty()), prior: Ghost(flash.changes()) };
        proof {
            assert(r.flash.changes() =~= r.prior@ + changes_of(r.ops@));
        }
        r
    }

    /// The flash.
    pub fn flash(&self) -> (r: &F)
        ensures
            *r == self.device(),
    {
        &self.flash
    }

    /// Give the flash back.
    pub fn into_inner(self) -> (r: F)
        ensures
            r == self.device(),
    {
        self.flash
    }

    /// The byte at `addr`.
    fn read(&mut self, addr: u32) -> (r: u8)
        requires
            old(self).wf(),
        ensures
            final(self).wf(),
            final(self).ops() == old(self).ops().push(BootOp::Read(addr, r)),
            final(self).prior_changes() == old(self).prior_changes(),
    {
        let r = self.flash.read_byte(addr);
        let ghost o = self.ops@;
        self.ops = Ghost(self.ops@.push(BootOp::Read(addr, r)));
        proof {
            assert(self.ops@.drop_last() =~= o);
        }
        r
    }

    /// Erase the sector at `addr`.
    fn erase(&mut self, addr: u32)
        requires
            old(self).wf(),
        ensures
            final(self).wf(),
            final(self).ops() == old(self).ops().push(BootOp::Erase(addr)),
            final(self).prior_changes() == old(self).prior_changes(),
    {
        self.flash.erase_sector(addr);
        let ghost o = self.ops@;
        self.ops = Ghost(self.ops@.push(BootOp::Erase(addr)));
        proof {
            assert(self.ops@.drop_last() =~= o);
            assert(self.flash.changes() =~= self.prior@ + changes_of(self.ops@));
        }
    }

    /// Program the page at `addr` with `data`.
    fn write(&mut self, addr: u32, data: &[u8])
        requires
            old(self).wf(),
        ensures
            final(self).wf(),
            final(self).ops() == old(self).ops().push(BootOp::Write(addr, data@)),
            final(self).prior_changes() == old(self).prior_changes(),
    {
        self.flash.write_page(addr, data);
        let ghost o = self.ops@;
        self.ops = Ghost(self.ops@.push(BootOp::Write(addr, data@)));
        proof {
            assert(self.ops@.drop_last() =~= o);
            assert(self.flash.changes() =~= self.prior@ + changes_of(self.ops@));
        }
    }
}

/// `len` bytes of flash from `addr`.
fn read_flash<F: BootFlash>(dev: &mut BootDevice<F>, addr: u32, len: usize) -> (r: Vec<u8>)
    requires
        addr + len <= u32::MAX,
        old(dev).wf(),
    ensures
        final(dev).wf(),
        r@.len() == len,
        final(dev).ops() == old(dev).ops() + reads_of(addr as int, r@),
{
    let mut buf: Vec<u8> = Vec::new();
    let mut i: usize = 0;
    while i < len
        invariant
            dev.wf(),
            i <= len,
            buf@.len() == i,
            addr + len <= u32::MAX,
            dev.ops() == old(dev).ops() + reads_of(addr as int, buf@),
        decreases len - i,
    {
        let b = dev.read(addr + i as u32);
        proof {
            assert(reads_of(addr as int, buf@.push(b)) =~= reads_of(addr as int, buf@).push(BootOp::Read((addr + i) as u32, b)));
        }
        buf.push(b);
        i = i + 1;
    }
    buf
}

/// Sector erases of the first `k` sectors of the normal area.
pub open spec fn sector_erases(k: int) -> Seq<BootOp> {
    Seq::new(k as nat, |i: int| BootOp::Erase((NORMAL_BASE + 2048 * i) as u32))
}

/// Page `part` padded with 0xFF to 512 bytes.
pub open spec fn padded(part: Seq<u8>) -> Seq<u8> {
    part + Seq::new((512 - part.len()) as nat, |i: int| 0xFFu8)
}

/// Copy of page `p` of an image of `size` bytes whose bytes, as read for
/// the copy, are `data`: the page's bytes read from the OTA area, then the
/// page programmed, padded.
pub open spec fn page_ops(size: int, p: int, data: Seq<u8>) -> Seq<BootOp> {
    let part = data.subrange(512 * p, 512 * p + page_len(size, p));
    reads_of(OTA_BASE + OTA_HEADER_SIZE + 512 * p, part).push(BootOp::Write((NORMAL_BASE + 512 * p) as u32, padded(part)))
}

/// Copies of the first `k` pages.
pub open spec fn pages_upto(size: int, k: int, data: Seq<u8>) -> Seq<BootOp>
    decreases k,
{
    if k <= 0 { Seq::empty() } else { pages_upto(size, k - 1, data) + page_ops(size, k - 1, data) }
}

/// The operations of copying an image of `size` bytes, read as `data`,
/// whose copy read back as `copied`: erase the sectors it needs, copy it
/// page by page, read the copy back.
pub open spec fn copy_ops(size: int, data: Seq<u8>, copied: Seq<u8>) -> Seq<BootOp> {
    sector_erases(units_for(size, 2048)) + pages_upto(size, units_for(size, 512), data) + reads_of(NORMAL_BASE as int, copied)
}

/// The bytes a data prefix covers after `p` pages of an image of `size` bytes.
pub open spec fn covered(size: int, p: int) -> int {
    if 512 * p < size { 512 * p } else { size }
}

/// The copies of the first `k` pages depend only on the bytes they cover.
proof fn lemma_pages_upto_prefix(size: int, k: int, d1: Seq<u8>, d2: Seq<u8>)
    requires
        0 <= k,
        size >= 0,
        k <= units_for(size, 512),
        d1.len() >= covered(size, k),
        d2.len() >= covered(size, k),
        d1.subrange(0, covered(size, k)) == d2.subrange(0, covered(size, k)),
    ensures
        pages_upto(size, k, d1) == pages_upto(size, k, d2),
    decreases k,
{
    lemma_pages(size);
    if k > 0 {
        let c = covered(size, k);
        let c1 = covered(size, k - 1);
        assert(c1 <= c);
        assert(d1.subrange(0, c1) =~= d1.subrange(0, c).subrange(0, c1));
        assert(d2.subrange(0, c1) =~= d2.subrange(0, c).subrange(0, c1));
        lemma_pages_upto_prefix(size, k - 1, d1, d2);
        let a = 512 * (k - 1);
        let e = a + page_len(size, k - 1);
        assert(e <= c);
        assert(d1.subrange(a, e) =~= d1.subrange(0, c).subrange(a, e));
        assert(d2.subrange(a, e) =~= d2.subrange(0, c).subrange(a, e));
    }
}

/// Copy the staged image to the normal area: erase the sectors it needs,
/// program it page by page (a last partial page padded with 0xFF), then
/// read the copy back and compare its CRC-32 with the header. An image
/// larger than the normal area is refused without touching the flash.
pub fn copy_ota_to_normal<F: BootFlash>(dev: &mut BootDevice<F>, header: &OtaHeader) -> (r: bool)
    requires
        old(dev).wf(),
    ensures
        final(dev).wf(),
        header.firmware_size > NORMAL_SIZE ==> !r && *final(dev) == *old(dev),
        header.firmware_size <= NORMAL_SIZE ==> exists|data: Seq<u8>, copied: Seq<u8>| {
            &&& data.len() == header.firmware_size
            &&& copied.len() == header.firmware_size
            &&& final(dev).ops() == old(dev).ops() + #[trigger] copy_ops(header.firmware_size as int, data, copied)
            &&& r == (crc32_spec(copied) == header.firmware_crc)
        },
{
    if header.firmware_size > NORMAL_SIZE {
        return false;
    }
    let size: usize = header.firmware_size as usize;
    let ghost sz = size as int;
    let ghost o0 = dev.ops();
    proof {
        lemma_pages(sz);
    }
    let sectors: usize = (size + 2047) / 2048;
    let mut i: usize = 0;
    proof {
        assert(sector_erases(0) =~= Seq::<BootOp>::empty());
        assert(dev.ops() =~= o0 + sector_erases(0));
    }
    while i < sectors
        invariant
            dev.wf(),
            i <= sectors,
            sectors == units_for(sz, 2048),
            sectors <= 64,
            dev.ops() == o0 + sector_erases(i as int),
        decreases sectors - i,
    {
        dev.erase(NORMAL_BASE + (i as u32) * FLASH_SECTOR_SIZE);
        proof {
            assert(sector_erases(i + 1) =~= sector_erases(i as int).push(BootOp::Erase((NORMAL_BASE + 2048 * i) as u32)));
        }
        i = i + 1;
    }
    let ghost o1 = dev.ops();
    let pages: usize = (size + 511) / 512;
    let ghost mut data: Seq<u8> = Seq::empty();
    let mut p: usize = 0;
    proof {
        assert(dev.ops() =~= o1 + pages_upto(sz, 0, data));
    }
    while p < pages
        invariant
            dev.wf(),
            p <= pages,
            pages == units_for(sz, 512),
            sz == size,
            size <= NORMAL_SIZE,
            512 * units_for(sz, 512) >= sz,
            sz > 0 ==> 512 * (units_for(sz, 512) - 1) < sz,
            data.len() == covered(sz, p as int),
            dev.ops() == o1 + pages_upto(sz, p as int, data),
        decreases pages - p,
    {
        let src_addr: u32 = OTA_BASE + OTA_HEADER_SIZE + (p as u32) * FLASH_PAGE_SIZE;
        let dst_addr: u32 = NORMAL_BASE + (p as u32) * FLASH_PAGE_SIZE;
        let n = copy_len(size, p);
        let ghost before = dev.ops();
        let part = read_flash(dev, src_addr, n);
        let mut page: Vec<u8> = Vec::new();
        let mut j: usize = 0;
        while j < 512
            invariant
                dev.wf(),
                j <= 512,
                page@.len() == j,
                part@.len() == n,
                n <= 512,
                forall|t: int| 0 <= t < j ==> #[trigger] page@[t] == (if t < n { part@[t] } else { 0xFFu8 }),
            decreases 512 - j,
        {
            if j < n {
                page.push(part[j]);
            } else {
                page.push(0xFF);
            }
            j = j + 1;
        }
        proof {
            assert(page@ =~= padded(part@));
        }
        dev.write(dst_addr, page.as_slice());
        proof {
            let d2 = data + part@;
            assert(512 * (p as int) < sz);
            assert(data.len() == 512 * (p as int));
            assert(d2.len() == covered(sz, p + 1));
            assert(d2.subrange(0, covered(sz, p as int)) =~= data);
            assert(data.subrange(0, covered(sz, p as int)) =~= data);
            lemma_pages_upto_prefix(sz, p as int, data, d2);
            assert(d2.subrange(512 * p, 512 * p + page_len(sz, p as int)) =~= part@);
            assert(page_ops(sz, p as int, d2) =~= reads_of(src_addr as int, part@).push(BootOp::Write(dst_addr, page@)));
            assert(dev.ops() =~= o1 + pages_upto(sz, p + 1, d2));
            data = d2;
        }
        p = p + 1;
    }
    let copied = read_flash(dev, NORMAL_BASE, size);
    proof {
        assert(data.len() == sz);
        assert(dev.ops() =~= o0 + copy_ops(sz, data, copied@));
    }
    crc32(copied.as_slice()) == header.firmware_crc
}

/* ---------------- boot decision ---------------- */

/// Outcome of the boot for header `h`, given the CRC of the staged image
/// as read, whether the copy checked out, and the CRC of the normal area
/// before and after the copy: no magic or an unusable header boots
/// normally; an image whose CRC differs from the header's is discarded
/// and the boot is normal; a good copy is installed; after a bad copy the
/// outcome is `rollback_status`.
pub open spec fn boot_decision_spec(h: OtaHeader, image_crc: u32, copy_ok: bool, old_crc: u32, current_crc: u32) -> BootStatus {
    if !header_usable(h) {
        BootStatus::NormalBoot
    } else if image_crc != h.firmware_crc {
        BootStatus::NormalBoot
    } else if copy_ok {
        BootStatus::OtaDone
    } else {
        rollback_status(old_crc, current_crc)
    }
}

/// The boot outcome (see `boot_decision_spec`).
pub fn boot_decision(h: &OtaHeader, image_crc: u32, copy_ok: bool, old_crc: u32, current_crc: u32) -> (r: BootStatus)
    ensures
        r == boot_decision_spec(*h, image_crc, copy_ok, old_crc, current_crc),
{
    if h.magic != OTA_MAGIC || h.firmware_size == 0 || h.firmware_size > OTA_SIZE {
        BootStatus::NormalBoot
    } else if image_crc != h.firmware_crc {
        BootStatus::NormalBoot
    } else if copy_ok {
        BootStatus::OtaDone
    } else {
        rollback_outcome(old_crc, current_crc)
    }
}

/// Bytes of the normal area the old image is checked over.
pub open spec fn old_len(h: OtaHeader) -> int {
    if h.firmware_size < NORMAL_SIZE { h.firmware_size as int } else { NORMAL_SIZE as int }
}

/// Whether the copy checked out: the image fits the normal area and the
/// copy read back has the header's CRC.
pub open spec fn copy_ok(h: OtaHeader, copied: Seq<u8>) -> bool {
    h.firmware_size <= NORMAL_SIZE && crc32_spec(copied) == h.firmware_crc
}

/// Outcome of the boot for header `h` with what was read: the staged
/// image `img`, the old normal area `prev`, the copy read back `copied`,
/// and the normal area after a bad copy `cur`.
pub open spec fn boot_outcome(h: OtaHeader, img: Seq<u8>, prev: Seq<u8>, copied: Seq<u8>, cur: Seq<u8>) -> BootStatus {
    boot_decision_spec(h, crc32_spec(img), copy_ok(h, copied), crc32_spec(prev), crc32_spec(cur))
}

/// Lengths of what the boot reads for header `h`.
pub open spec fn boot_read_lengths(h: OtaHeader, img: Seq<u8>, prev: Seq<u8>, data: Seq<u8>, copied: Seq<u8>, cur: Seq<u8>) -> bool {
    &&& img.len() == h.firmware_size
    &&& prev.len() == old_len(h)
    &&& data.len() == h.firmware_size
    &&& copied.len() == h.firmware_size
    &&& cur.len() == old_len(h)
}

/// The flash operations of the boot for header `h` with what was read:
/// nothing without the magic; an unusable header's sector erased; else the
/// image read, and when its CRC does not match the header erased; else
/// the old normal area read, the image copied (when it fits), and then
/// the header erased after a good copy, or the normal area read again
/// and the header erased when it is as before.
pub open spec fn boot_trace(h: OtaHeader, img: Seq<u8>, prev: Seq<u8>, data: Seq<u8>, copied: Seq<u8>, cur: Seq<u8>) -> Seq<BootOp> {
    let erase = seq![BootOp::Erase(OTA_BASE)];
    let image = reads_of(OTA_BASE + OTA_HEADER_SIZE, img);
    if h.magic != OTA_MAGIC {
        Seq::empty()
    } else if !header_usable(h) {
        erase
    } else if crc32_spec(img) != h.firmware_crc {
        image + erase
    } else {
        let copy = if h.firmware_size > NORMAL_SIZE { Seq::empty() } else { copy_ops(h.firmware_size as int, data, copied) };
        let after = if copy_ok(h, copied) {
            erase
        } else {
            reads_of(NORMAL_BASE as int, cur) + (if crc32_spec(cur) == crc32_spec(prev) { erase } else { Seq::empty() })
        };
        image + reads_of(NORMAL_BASE as int, prev) + copy + after
    }
}

/// The boot sequence: read the 32-byte header at the start of the OTA
/// area, then run `boot_with_header` on it.
pub fn boot_sequence<F: BootFlash>(dev: &mut BootDevice<F>) -> (r: BootStatus)
    requires
        old(dev).wf(),
    ensures
        final(dev).wf(),
        exists|hb: Seq<u8>, img: Seq<u8>, prev: Seq<u8>, data: Seq<u8>, copied: Seq<u8>, cur: Seq<u8>| {
            &&& hb.len() == 32
            &&& boot_read_lengths(header_of(hb), img, prev, data, copied, cur)
            &&& final(dev).ops() == old(dev).ops() + reads_of(OTA_BASE as int, hb)
                + #[trigger] boot_trace(header_of(hb), img, prev, data, copied, cur)
            &&& r == boot_outcome(header_of(hb), img, prev, copied, cur)
        },
        r != BootStatus::OtaCopying,
{
    let raw = read_flash(dev, OTA_BASE, 32);
    let header = parse_ota_header(raw.as_slice());
    let ghost o1 = dev.ops();
    let r = boot_with_header(dev, &header);
    proof {
        let (img, prev, data, copied, cur) = choose|img: Seq<u8>, prev: Seq<u8>, data: Seq<u8>, copied: Seq<u8>, cur: Seq<u8>| {
            &&& boot_read_lengths(header, img, prev, data, copied, cur)
            &&& dev.ops() == o1 + #[trigger] boot_trace(header, img, prev, data, copied, cur)
            &&& r == boot_outcome(header, img, prev, copied, cur)
        };
        assert(dev.ops() =~= old(dev).ops() + reads_of(OTA_BASE as int, raw@) + boot_trace(header_of(raw@), img, prev, data, copied, cur));
    }
    r
}

/// The boot sequence after the header has been read: see `boot_trace` for
/// what is done to the flash and `boot_outcome` for the outcome.
pub fn boot_with_header<F: BootFlash>(dev: &mut BootDevice<F>, header: &OtaHeader) -> (r: BootStatus)
    requires
        old(dev).wf(),
    ensures
        final(dev).wf(),
        exists|img: Seq<u8>, prev: Seq<u8>, data: Seq<u8>, copied: Seq<u8>, cur: Seq<u8>| {
            &&& boot_read_lengths(*header, img, prev, data, copied, cur)
            &&& final(dev).ops() == old(dev).ops() + #[trigger] boot_trace(*header, img, prev, data, copied, cur)
            &&& r == boot_outcome(*header, img, prev, copied, cur)
        },
        header.magic != OTA_MAGIC ==> r == BootStatus::NormalBoot && *final(dev) == *old(dev),
        r != BootStatus::OtaCopying,
{
    let ghost o0 = dev.ops();
    let ghost h = *header;
    let ghost zs: Seq<u8> = Seq::new(h.firmware_size as nat, |i: int| 0u8);
    let ghost zo: Seq<u8> = Seq::new(old_len(h) as nat, |i: int| 0u8);
    if header.magic != OTA_MAGIC {
        proof {
            assert(dev.ops() =~= o0 + boot_trace(h, zs, zo, zs, zs, zo));
        }
        return BootStatus::NormalBoot;
    }
    let size: u32 = header.firmware_size;
    if size == 0 || size > OTA_SIZE {
        dev.erase(OTA_BASE);
        proof {
            assert(dev.ops() =~= o0 + boot_trace(h, zs, zo, zs, zs, zo));
        }
        return BootStatus::NormalBoot;
    }
    let image = read_flash(dev, OTA_BASE + OTA_HEADER_SIZE, size as usize);
    let image_crc = crc32(image.as_slice());
    if image_crc != header.firmware_crc {
        dev.erase(OTA_BASE);
        proof {
            assert(dev.ops() =~= o0 + boot_trace(h, image@, zo, zs, zs, zo));
        }
        return boot_decision(header, image_crc, false, 0, 0);
    }
    let old_size: usize = if size < NORMAL_SIZE { size as usize } else { NORMAL_SIZE as usize };
    let old_image = read_flash(dev, NORMAL_BASE, old_size);
    let old_crc = crc32(old_image.as_slice());
    let ghost o2 = dev.ops();
    let ok = copy_ota_to_normal(dev, header);
    let ghost o3 = dev.ops();
    let ghost (data, copied) = if size > NORMAL_SIZE {
        (zs, zs)
    } else {
        choose|data: Seq<u8>, copied: Seq<u8>| {
            &&& data.len() == h.firmware_size
            &&& copied.len() == h.firmware_size
            &&& o3 == o2 + #[trigger] copy_ops(h.firmware_size as int, data, copied)
            &&& ok == (crc32_spec(copied) == h.firmware_crc)
        }
    };
    proof {
        let copy = if h.firmware_size > NORMAL_SIZE { Seq::<BootOp>::empty() } else { copy_ops(h.firmware_size as int, data, copied) };
        assert(o3 =~= o2 + copy);
        assert(ok == copy_ok(h, copied));
    }
    if ok {
        dev.erase(OTA_BASE);
        proof {
            assert(dev.ops() =~= o0 + boot_trace(h, image@, old_image@, data, copied, zo));
        }
        boot_decision(header, image_crc, true, old_crc, 0)
    } else {
        let current = read_flash(dev, NORMAL_BASE, old_size);
        let current_crc = crc32(current.as_slice());
        let status = boot_decision(header, image_crc, false, old_crc, current_crc);
        if current_crc == old_crc {
            dev.erase(OTA_BASE);
        }
        proof {
            assert(dev.ops() =~= o0 + boot_trace(h, image@, old_image@, data, copied, current@));
        }
        status
    }
}

} // verus!
