use rmdadm::ioctl::{dev_major, dev_minor, disk_state, MduArrayInfo, MduDiskInfo, MduParam, MD_DISK_ACTIVE, MD_DISK_SYNC};
use std::mem::size_of;

#[test]
fn ioctl_structs_match_kernel_uapi_sizes() {
    assert_eq!(size_of::<MduArrayInfo>(), 72);
    assert_eq!(size_of::<MduDiskInfo>(), 20);
    assert_eq!(size_of::<MduParam>(), 12);
}

#[test]
fn splits_linux_dev_t_major_and_minor() {
    let dev = (7_u64 << 8) | (259_u64 & 0x00ff) | ((259_u64 & !0x00ff) << 12);

    assert_eq!(dev_major(dev), 7);
    assert_eq!(dev_minor(dev), 259);
}

#[test]
fn disk_state_uses_kernel_bit_positions() {
    assert_eq!(disk_state(&[MD_DISK_ACTIVE, MD_DISK_SYNC]), 0b110);
}

#[test]
fn splits_large_major_numbers() {
    let major: u64 = 0x1234;
    let minor: u64 = 0x56789;
    let dev = (minor & 0xff) | ((major & 0xfff) << 8) | ((minor & !0xff) << 12) | ((major & !0xfff) << 32);
    assert_eq!(dev_major(dev), 0x1234);
    assert_eq!(dev_minor(dev), 0x56789);
}

#[test]
fn disk_state_of_no_flag_is_zero() {
    assert_eq!(disk_state(&[]), 0);
    assert_eq!(disk_state(&[0, 3]), 0b1001);
}
