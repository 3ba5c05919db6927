//! Values exchanged with the MD driver through ioctls (see linux/raid/md_u.h),
//! and the encoding of device numbers.

use vstd::prelude::*;

verus! {

pub const MD_MAJOR: u32 = 9;

/// `mdu_array_info_t`.
#[derive(Debug, Default, Clone, Copy)]
pub struct MduArrayInfo {
    pub major_version: i32,
    pub minor_version: i32,
    pub patch_version: i32,
    pub ctime: u32,
    pub level: i32,
    pub size: i32,
    pub nr_disks: i32,
    pub raid_disks: i32,
    pub md_minor: i32,
    pub not_persistent: i32,
    pub utime: u32,
    pub state: i32,
    pub active_disks: i32,
    pub working_disks: i32,
    pub failed_disks: i32,
    pub spare_disks: i32,
    pub layout: i32,
    pub chunk_size: i32,
}

/// `mdu_disk_info_t`.
#[derive(Debug, Default, Clone, Copy)]
pub struct MduDiskInfo {
    pub number: i32,
    pub major: i32,
    pub minor: i32,
    pub raid_disk: i32,
    pub state: i32,
}

/// `mdu_param_t`.
#[derive(Debug, Default, Clone, Copy)]
pub struct MduParam {
    pub personality: i32,
    pub chunk_size: i32,
    pub max_fault: i32,
}

pub const MD_DISK_FAULTY: i32 = 0;
pub const MD_DISK_ACTIVE: i32 = 1;
pub const MD_DISK_SYNC: i32 = 2;
pub const MD_DISK_REMOVED: i32 = 3;
pub const MD_DISK_WRITEMOSTLY: i32 = 9;

/// The major number held in a Linux `dev_t`: bits 8 to 19, and the bits from 44 on
/// above them.
pub open spec fn spec_dev_major(dev: u64) -> nat {
    ((dev / 0x100) % 0x1000 + (dev / 0x1000_0000_0000) * 0x1000) as nat
}

/// The minor number held in a Linux `dev_t`: bits 0 to 7, and the bits from 20 on
/// above them (the kernel keeps the low 32 bits of this).
pub open spec fn spec_dev_minor(dev: u64) -> nat {
    (dev % 0x100 + (dev / 0x10_0000) * 0x100) as nat
}

/// The Linux `dev_t` of a major and a minor number.
pub open spec fn makedev(major: u32, minor: u32) -> u64 {
    ((minor as u64) & 0xff) | (((major as u64) & 0xfff) << 8u64) | (((minor as u64) & !0xffu64) << 12u64)
        | (((major as u64) & !0xfffu64) << 32u64)
}

/// Major number of a device, as the kernel packs it in `dev_t`.
pub fn dev_major(dev: u64) -> (r: i32)
    ensures
        r == spec_dev_major(dev) as i32,
{
    let v = ((dev >> 8u64) & 0x0fffu64) | ((dev >> 32u64) & !0x0fffu64);
    assert(v == (dev / 0x100) % 0x1000 + (dev / 0x1000_0000_0000) * 0x1000) by (bit_vector)
        requires v == ((dev >> 8u64) & 0x0fffu64) | ((dev >> 32u64) & !0x0fffu64);
    v as i32
}

/// Minor number of a device, as the kernel packs it in `dev_t`.
pub fn dev_minor(dev: u64) -> (r: i32)
    ensures
        r == spec_dev_minor(dev) as i32,
{
    let v = (dev & 0x00ffu64) | ((dev >> 12u64) & !0x00ffu64);
    assert(v == dev % 0x100 + (dev / 0x10_0000) * 0x100) by (bit_vector)
        requires v == (dev & 0x00ffu64) | ((dev >> 12u64) & !0x00ffu64);
    v as i32
}

/// Splitting a `dev_t` gives back the major and minor numbers it was made of.
pub proof fn lemma_dev_split(major: u32, minor: u32)
    ensures
        spec_dev_major(makedev(major, minor)) == major,
        spec_dev_minor(makedev(major, minor)) % 0x1_0000_0000 == minor,
{
    let d = makedev(major, minor);
    assert((d / 0x100) % 0x1000 + (d / 0x1000_0000_0000) * 0x1000 == major) by (bit_vector)
        requires d == ((minor as u64) & 0xff) | (((major as u64) & 0xfff) << 8u64)
            | (((minor as u64) & !0xffu64) << 12u64) | (((major as u64) & !0xfffu64) << 32u64);
    assert((d % 0x100 + (d / 0x10_0000) * 0x100) % 0x1_0000_0000 == minor) by (bit_vector)
        requires d == ((minor as u64) & 0xff) | (((major as u64) & 0xfff) << 8u64)
            | (((minor as u64) & !0xffu64) << 12u64) | (((major as u64) & !0xfffu64) << 32u64);
}

proof fn lemma_set_bit(s: i32, f: u32, b: u32)
    requires
        f < 32,
        b < 32,
    ensures
        ((s | (1i32 << f)) & (1i32 << b) != 0) == ((s & (1i32 << b) != 0) || b == f),
        (0i32 & (1i32 << b)) == 0,
{
    assert(((s | (1i32 << f)) & (1i32 << b) != 0) == ((s & (1i32 << b) != 0) || b == f)) by (bit_vector)
        requires f < 32, b < 32;
    assert((0i32 & (1i32 << b)) == 0) by (bit_vector);
}

/// The disk state word with bit `f` set for each flag `f` and no other bit set.
pub fn disk_state(flags: &[i32]) -> (r: i32)
    requires
        forall|i: int| 0 <= i < flags@.len() ==> 0 <= #[trigger] flags@[i] < 32,
    ensures
        forall|b: u32| b < 32 ==> ((r & (1i32 << b) != 0) <==> flags@.contains(b as i32)),
{
    let mut state: i32 = 0;
    let mut i: usize = 0;
    assert forall|b: u32| b < 32 implies ((state & (1i32 << b) != 0) <==> flags@.subrange(0, 0).contains(b as i32)) by {
        lemma_set_bit(0, 0, b);
    }
    while i < flags.len()
        invariant
            i <= flags@.len(),
            forall|k: int| 0 <= k < flags@.len() ==> 0 <= #[trigger] flags@[k] < 32,
            forall|b: u32| b < 32 ==> ((state & (1i32 << b) != 0) <==> flags@.subrange(0, i as int).contains(b as i32)),
        decreases flags@.len() - i,
    {
        let f = flags[i];
        let fu = f as u32;
        let ghost old_state = state;
        state = state | (1i32 << fu);
        assert forall|b: u32| b < 32 implies ((state & (1i32 << b) != 0) <==> flags@.subrange(0, i + 1).contains(b as i32)) by {
            lemma_set_bit(old_state, fu, b);
            if flags@.subrange(0, i as int).contains(b as i32) {
                let k = choose|k: int| 0 <= k < i && #[trigger] flags@.subrange(0, i as int)[k] == b as i32;
                assert(flags@.subrange(0, i + 1)[k] == b as i32);
            }
            if flags@.subrange(0, i + 1).contains(b as i32) {
                let k = choose|k: int| 0 <= k < i + 1 && #[trigger] flags@.subrange(0, i + 1)[k] == b as i32;
                if k < i {
                    assert(flags@.subrange(0, i as int)[k] == b as i32);
                }
            }
            if b == fu {
                assert(flags@.subrange(0, i + 1)[i as int] == b as i32);
            }
        }
        i = i + 1;
    }
    assert(flags@.subrange(0, i as int) =~= flags@);
    state
}

} // verus!
