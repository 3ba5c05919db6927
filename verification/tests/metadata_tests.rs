use rmdadm::metadata::v0::{SuperblockV0, DiskInfoV0, MD_SB_MAGIC_V0, V0_MAX_BYTES};
use rmdadm::metadata::v1::{
    SuperblockV1, MD_SB_MAGIC, MD_FEATURE_BITMAP_OFFSET, MD_FEATURE_RESHAPE_ACTIVE, MD_DISK_ROLE_SPARE,
    MD_DISK_ROLE_FAULTY, V1Probe,
};

#[test]
fn test_superblock_v0_default() {
    let sb = SuperblockV0::default();
    assert_eq!(sb.md_magic, MD_SB_MAGIC_V0);
    assert_eq!(sb.major_version, 0);
    assert_eq!(sb.minor_version, 90);
}

#[test]
fn test_events_64bit() {
    let mut sb = SuperblockV0::default();
    sb.events_hi = 1;
    sb.events_lo = 0x12345678;
    assert_eq!(sb.events(), 0x100000000 + 0x12345678);
}

#[test]
fn test_uuid_conversion() {
    let mut sb = SuperblockV0::default();
    let uuid = [1, 2, 3, 4, 5, 6, 7, 8, 9, 10, 11, 12, 13, 14, 15, 16];
    sb.update_uuid(uuid);
    assert_eq!(sb.uuid_bytes(), uuid);
}

#[test]
fn v0_test_offset_calculation() {
    let offset = SuperblockV0::calculate_offset(1024 * 1024 * 1024);
    assert!(offset > 0);
    assert!(offset < 1024 * 1024 * 1024);
}

#[test]
fn test_superblock_default() {
    let sb = SuperblockV1::default();
    assert_eq!(sb.magic, MD_SB_MAGIC);
    assert_eq!(sb.major_version, 1);
    assert_eq!(sb.minor_version, 2);
}

#[test]
fn test_feature_checks() {
    let mut sb = SuperblockV1::default();
    assert!(!sb.has_bitmap());
    assert!(!sb.is_reshaping());
    assert!(!sb.has_bad_blocks());

    sb.feature_map = MD_FEATURE_BITMAP_OFFSET;
    assert!(sb.has_bitmap());

    sb.feature_map |= MD_FEATURE_RESHAPE_ACTIVE;
    assert!(sb.is_reshaping());
}

#[test]
fn test_device_roles() {
    let mut sb = SuperblockV1::default();
    sb.dev_roles = vec![0, 1, MD_DISK_ROLE_SPARE, MD_DISK_ROLE_FAULTY];

    assert_eq!(sb.get_device_role(0), "active");
    assert_eq!(sb.get_device_role(1), "active");
    assert_eq!(sb.get_device_role(2), "spare");
    assert_eq!(sb.get_device_role(3), "faulty");
    assert_eq!(sb.get_device_role(10), "unknown");
}

#[test]
fn v1_test_offset_calculation() {
    let offset = SuperblockV1::offset_for_minor(0, 1024 * 1024 * 1024);
    assert!(offset > 0);

    let offset = SuperblockV1::offset_for_minor(1, 1024 * 1024 * 1024);
    assert_eq!(offset, 0);

    let offset = SuperblockV1::offset_for_minor(2, 1024 * 1024 * 1024);
    assert_eq!(offset, 4096);
}

#[test]
fn v0_offset_is_4k_before_the_last_64k_boundary() {
    assert_eq!(SuperblockV0::calculate_offset(1024 * 1024 * 1024), 1024 * 1024 * 1024 - 4096);
    assert_eq!(SuperblockV0::calculate_offset(65536 + 100), 65536 - 4096);
    assert_eq!(SuperblockV0::calculate_offset(1000), 0);
}

#[test]
fn v1_offset_of_version_1_0_is_8k_before_aligned_end() {
    assert_eq!(SuperblockV1::offset_for_minor(0, 1024 * 1024 * 1024 + 100), 1024 * 1024 * 1024 - 8192);
    assert_eq!(SuperblockV1::offset_for_minor(0, 4096), 0);
    assert_eq!(SuperblockV1::offset_for_minor(7, 10), 4096);
}

#[test]
fn v0_write_then_load_gives_the_superblock_back() {
    let mut sb = SuperblockV0::default();
    sb.level = 5;
    sb.raid_disks = 3;
    sb.nr_disks = 2;
    sb.events_lo = 7;
    sb.disks = vec![
        DiskInfoV0 { number: 0, major: 8, minor: 1, raid_disk: 0, state: 6 },
        DiskInfoV0 { number: 1, major: 8, minor: 17, raid_disk: 1, state: 6 },
    ];
    let bytes = sb.to_bytes();
    assert!(bytes.len() <= V0_MAX_BYTES);
    let back = SuperblockV0::load(&bytes).unwrap();
    assert_eq!(back.level, 5);
    assert_eq!(back.raid_disks, 3);
    assert_eq!(back.events(), 7);
    assert_eq!(back.disks.len(), 2);
    assert_eq!(back.disks[1].minor, 17);
}

#[test]
fn v0_load_rejects_bad_magic_and_short_data() {
    let sb = SuperblockV0::default();
    let mut bytes = sb.to_bytes();
    bytes[0] = 0;
    assert!(SuperblockV0::load(&bytes).is_err());
    assert!(SuperblockV0::load(&[0u8; 10]).is_err());
}

#[test]
fn v0_checksum_is_sum_of_header_words_without_checksum() {
    let mut sb = SuperblockV0::default();
    let base = sb.calculate_checksum();
    sb.level = 1;
    assert_eq!(sb.calculate_checksum(), base.wrapping_add(1));
}

#[test]
fn v1_write_then_probe_gives_the_superblock_back() {
    let mut sb = SuperblockV1::default();
    sb.level = 1;
    sb.raid_disks = 2;
    sb.max_dev = 2;
    sb.dev_roles = vec![0, 1];
    sb.events = 42;
    let bytes = sb.to_bytes();
    match SuperblockV1::probe(&bytes, 2, 4096) {
        V1Probe::Found(back) => {
            assert_eq!(back.level, 1);
            assert_eq!(back.events, 42);
            assert_eq!(back.dev_roles, vec![0, 1]);
        }
        _ => panic!("superblock not found"),
    }
}

#[test]
fn v1_probe_without_magic_finds_nothing() {
    let bytes = vec![0u8; 256];
    assert!(matches!(SuperblockV1::probe(&bytes, 2, 4096), V1Probe::NoMagic));
}

#[test]
fn v1_update_uuid_replaces_only_the_uuid() {
    let mut sb = SuperblockV1::default();
    sb.level = 6;
    sb.update_uuid([9; 16]);
    assert_eq!(sb.set_uuid, [9; 16]);
    assert_eq!(sb.level, 6);
}

#[test]
fn v1_checksum_sums_identifying_fields() {
    let mut sb = SuperblockV1::default();
    sb.feature_map = 0;
    sb.ctime = 0;
    sb.level = 0;
    assert_eq!(sb.calculate_checksum(), MD_SB_MAGIC.wrapping_add(1));
}

#[test]
fn v0_examine_shows_fields_and_times() {
    let mut sb = SuperblockV0::default();
    sb.level = 1;
    sb.ctime = 0;
    sb.utime = 86400;
    sb.disks = vec![DiskInfoV0 { number: 0, major: 8, minor: 1, raid_disk: 0, state: 2 }];
    let lines = sb.examine();
    assert_eq!(lines[0], "          Magic : a92b4efc");
    assert_eq!(lines[1], "        Version : 0.90.0");
    assert_eq!(lines[2], "           UUID : 00000000-0000-0000-0000-000000000000");
    assert_eq!(lines[3], "     Raid Level : raid1");
    assert_eq!(lines[13], "          State : clean");
    assert_eq!(lines[15], "   Created Time : 1970-01-01 00:00:00 UTC");
    assert_eq!(lines[16], "   Updated Time : 1970-01-02 00:00:00 UTC");
    assert_eq!(lines[17], "          Disks :");
    assert_eq!(lines[18], "      Disk 0 : 8:1 (raid_disk: 0, state: active)");
}

#[test]
fn v1_examine_shows_name_and_roles() {
    let mut sb = SuperblockV1::default();
    sb.set_uuid = [0xab; 16];
    let mut name = [0u8; 32];
    name[..4].copy_from_slice(b"data");
    sb.set_name = name;
    sb.size = 2048;
    sb.chunksize = -2048;
    sb.dev_roles = vec![3, MD_DISK_ROLE_SPARE, 0xff10];
    sb.feature_map = MD_FEATURE_BITMAP_OFFSET;
    sb.bitmap_offset = 8;
    let lines = sb.examine();
    assert!(lines.contains(&"         Bitmap : present (offset: 8 sectors)".to_string()));
    assert!(lines.contains(&"           UUID : abababab-abab-abab-abab-abababababab".to_string()));
    assert!(lines.contains(&"           Name : data".to_string()));
    assert!(lines.contains(&"           Size : 2048 sectors (1 MB)".to_string()));
    assert!(lines.contains(&"     Chunk Size : -2 KB".to_string()));
    assert!(lines.contains(&"      Device 0 : active (slot 3)".to_string()));
    assert!(lines.contains(&"      Device 1 : spare".to_string()));
    assert!(lines.contains(&"      Device 2 : unknown".to_string()));
}
