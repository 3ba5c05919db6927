use rmdadm::error::MdError;
use rmdadm::ops::bitmap::{
    add_bitmap, clear_bitmap, get_bitmap_info, remove_bitmap, validate_bitmap_config, print_bitmap_plan, has_bitmap,
    BitmapAttrs, BitmapConfig, BitmapLocation,
};
use rmdadm::ops::create::{chunk_size_kib_to_bytes, component_layout, component_superblock, metadata_minor,
    ensure_md_device, MdDeviceAction, DeviceNode, create_superblocks};
use rmdadm::metadata::v1::SuperblockV1;
use rmdadm::ops::reshape::{
    cancel_reshape, change_device_count, confirmed, read_raid_disks, reshape_array, sync_progress, ReshapeConfig,
    ReshapeType, SyncProgress, print_reshape_plan,
};
use rmdadm::ops::spare::{
    activate_spare, add_spare, configure_spare_policy, get_spare_count, is_spare_device, list_spares, remove_spare,
    MdDirEntry, SpareConfig, SpareInfo,
};
use rmdadm::sysfs::{ArrayState, Plan};

fn writes(p: Plan) -> Vec<(String, String, String)> {
    match p {
        Plan::Writes(ws) => ws.into_iter().map(|w| (w.attr, w.value, w.action)).collect(),
        other => panic!("expected writes, got {:?}", other),
    }
}

#[test]
fn test_bitmap_config_default() {
    let config = BitmapConfig::default();
    assert_eq!(config.location, BitmapLocation::Internal);
    assert_eq!(config.chunk_size, Some(64));
}

#[test]
fn test_bitmap_location() {
    assert_eq!(BitmapLocation::Internal, BitmapLocation::Internal);
    assert_ne!(BitmapLocation::Internal, BitmapLocation::External);
}

#[test]
fn test_validate_chunk_size() {
    let mut config = BitmapConfig::default();

    config.chunk_size = Some(64);
    assert!(validate_bitmap_config(&config).is_ok());

    config.chunk_size = Some(128);
    assert!(validate_bitmap_config(&config).is_ok());

    config.chunk_size = Some(2);
    assert!(validate_bitmap_config(&config).is_err());

    config.chunk_size = Some(100);
    assert!(validate_bitmap_config(&config).is_err());
}

#[test]
fn bitmap_config_errors_name_the_problem() {
    let mut config = BitmapConfig::default();
    config.chunk_size = Some(4096);
    match validate_bitmap_config(&config) {
        Err(MdError::ConfigValidation(m)) => assert_eq!(m, "Invalid bitmap chunk size: 4096 KB (must be 4-2048 KB)"),
        other => panic!("{:?}", other),
    }
    config.chunk_size = Some(96);
    match validate_bitmap_config(&config) {
        Err(MdError::ConfigValidation(m)) => assert_eq!(m, "Bitmap chunk size must be power of 2: 96"),
        other => panic!("{:?}", other),
    }
    config.chunk_size = None;
    config.location = BitmapLocation::External;
    match validate_bitmap_config(&config) {
        Err(MdError::ConfigValidation(m)) => assert_eq!(m, "External bitmap requires file_path"),
        other => panic!("{:?}", other),
    }
}

#[test]
fn has_bitmap_ignores_none_and_failed_reads() {
    assert!(!has_bitmap(&None));
    assert!(!has_bitmap(&Some("none\n".to_string())));
    assert!(has_bitmap(&Some("+8".to_string())));
}

#[test]
fn add_internal_bitmap_writes_chunk_then_location() {
    let config = BitmapConfig { location: BitmapLocation::Internal, chunk_size: Some(64), file_path: None, write_behind: Some(5) };
    let ws = writes(add_bitmap("/dev/md0", true, &Some("none".to_string()), &config, false).unwrap());
    assert_eq!(ws, vec![
        ("bitmap/chunksize".to_string(), "65536".to_string(), "set chunk size".to_string()),
        ("bitmap/location".to_string(), "+0".to_string(), "enable internal bitmap".to_string()),
        ("bitmap/time_base".to_string(), "5".to_string(), "set write-behind".to_string()),
    ]);
}

#[test]
fn add_bitmap_cases() {
    let config = BitmapConfig::default();
    assert!(matches!(add_bitmap("/dev/md0", false, &None, &config, false), Err(MdError::DeviceNotFound(_))));
    assert!(matches!(add_bitmap("/", true, &None, &config, false), Err(MdError::InvalidDevice(_))));
    assert!(matches!(add_bitmap("/dev/md0", true, &Some("+8".to_string()), &config, false), Ok(Plan::Unchanged)));
    assert!(matches!(add_bitmap("/dev/md0", true, &None, &config, true), Ok(Plan::DryRun)));
    let none = BitmapConfig { location: BitmapLocation::NoBitmap, chunk_size: None, file_path: None, write_behind: None };
    match add_bitmap("/dev/md0", true, &None, &none, false) {
        Err(MdError::ConfigValidation(m)) => assert_eq!(m, "Cannot add bitmap with location 'None'"),
        other => panic!("{:?}", other),
    }
    let ext = BitmapConfig { location: BitmapLocation::External, chunk_size: None, file_path: Some("/bm".to_string()), write_behind: None };
    let ws = writes(add_bitmap("/dev/md0", true, &None, &ext, false).unwrap());
    assert_eq!(ws[0].1, "/bm");
}

#[test]
fn remove_and_clear_bitmap() {
    let ws = writes(remove_bitmap("/dev/md0", true, &Some("+8".to_string()), false).unwrap());
    assert_eq!(ws[0].0, "bitmap/location");
    assert_eq!(ws[0].1, "none");
    assert!(matches!(remove_bitmap("/dev/md0", true, &None, false), Ok(Plan::Unchanged)));
    match clear_bitmap("/dev/md0", &None) {
        Err(MdError::Bitmap(m)) => assert_eq!(m, "Array does not have a bitmap"),
        other => panic!("{:?}", other),
    }
    let ws = writes(clear_bitmap("/dev/md0", &Some("+8".to_string())).unwrap());
    assert_eq!(ws[0], ("bitmap/can_clear".to_string(), "1".to_string(), "clear bitmap".to_string()));
}

#[test]
fn bitmap_info_reads_the_attributes() {
    let attrs = BitmapAttrs {
        location: Some("+8".to_string()),
        chunksize: Some("65536".to_string()),
        pages: Some("12".to_string()),
        dirty_pages: Some("x".to_string()),
    };
    let info = get_bitmap_info("/dev/md0", &attrs).unwrap();
    assert!(info.enabled);
    assert_eq!(info.location, BitmapLocation::Internal);
    assert_eq!(info.chunk_size, Some(64));
    assert_eq!(info.pages, Some(12));
    assert_eq!(info.dirty_pages, None);
    let ext = BitmapAttrs { location: Some("/var/bm".to_string()), chunksize: None, pages: None, dirty_pages: None };
    let info = get_bitmap_info("/dev/md0", &ext).unwrap();
    assert_eq!(info.location, BitmapLocation::External);
    assert_eq!(info.file_path.as_deref(), Some("/var/bm"));
    let none = BitmapAttrs { location: None, chunksize: None, pages: None, dirty_pages: None };
    assert!(!get_bitmap_info("/dev/md0", &none).unwrap().enabled);
}

#[test]
fn bitmap_plan_lines() {
    let lines = print_bitmap_plan(&BitmapConfig::default());
    assert_eq!(lines[2], "Location: Internal (stored in array metadata)");
    assert_eq!(lines[3], "Chunk Size: 64 KB");
    assert_eq!(lines.last().unwrap(), "");
}

#[test]
fn converts_chunk_size_from_kib_to_kernel_bytes() {
    assert_eq!(chunk_size_kib_to_bytes(512).unwrap(), 512 * 1024);
    assert_eq!(chunk_size_kib_to_bytes(4).unwrap(), 4 * 1024);
    assert_eq!(chunk_size_kib_to_bytes(32768).unwrap(), 32768 * 1024);
}

#[test]
fn rejects_invalid_chunk_sizes() {
    assert!(chunk_size_kib_to_bytes(0).is_err());
    assert!(chunk_size_kib_to_bytes(2).is_err());
    assert!(chunk_size_kib_to_bytes(100).is_err());
    assert!(chunk_size_kib_to_bytes(65536).is_err());
}

#[test]
fn metadata_names_map_to_minor_versions() {
    assert_eq!(metadata_minor("1.0"), 0);
    assert_eq!(metadata_minor("1.1"), 1);
    assert_eq!(metadata_minor("1.2"), 2);
    assert_eq!(metadata_minor("0.90"), 2);
}

#[test]
fn member_layouts() {
    assert_eq!(component_layout(0, 1024 * 1024), (0, 2032, 2032));
    assert_eq!(component_layout(1, 1024 * 1024), (16, 0, 2032));
    assert_eq!(component_layout(2, 1024 * 1024), (16, 8, 2032));
    assert_eq!(component_layout(2, 1024), (16, 8, 0));
}

#[test]
fn member_superblock_fields() {
    let sb = component_superblock([7; 16], 1000, 5, 3, 2, 1024 * 1024, None, 1);
    assert_eq!(sb.set_uuid, [7; 16]);
    assert_eq!(sb.level, 5);
    assert_eq!(sb.size, 2032);
    assert_eq!(sb.chunksize, 1024);
    assert_eq!(sb.dev_roles, vec![0, 1, 2]);
    assert_eq!(sb.dev_number, 1);
    assert_eq!(sb.reshape_position, u64::MAX);
}

#[test]
fn md_device_checks() {
    let node = DeviceNode { is_block: true, rdev: 9 << 8 };
    assert_eq!(ensure_md_device("/dev/md0", Some(Ok(node)), false).unwrap(), MdDeviceAction::Ready);
    let other = DeviceNode { is_block: true, rdev: 8 << 8 };
    match ensure_md_device("/dev/sda", Some(Ok(other)), false) {
        Err(MdError::InvalidDevice(m)) => assert_eq!(m, "/dev/sda is block major 8, not an MD device (major 9)"),
        r => panic!("{:?}", r),
    }
    assert_eq!(ensure_md_device("/dev/md3", None, false).unwrap(), MdDeviceAction::Create("md3".to_string()));
    assert_eq!(ensure_md_device("/dev/md3", None, true).unwrap(), MdDeviceAction::DryRun);
}

#[test]
fn test_reshape_config_default() {
    let config = ReshapeConfig::default();
    assert!(config.target_level.is_none());
    assert!(config.target_chunk_size.is_none());
    assert!(!config.force);
}

#[test]
fn test_reshape_type() {
    assert_eq!(ReshapeType::Level, ReshapeType::Level);
    assert_ne!(ReshapeType::Level, ReshapeType::ChunkSize);
}

#[test]
fn reshape_needs_an_active_array_and_an_operation() {
    let mut config = ReshapeConfig::default();
    let level = Ok("raid5".to_string());
    match reshape_array("/dev/md0", true, Ok(ArrayState::Inactive), &level, &config, false) {
        Err(MdError::InvalidState(m)) => assert_eq!(m, "Array must be active or clean to reshape, current state: inactive"),
        r => panic!("{:?}", r),
    }
    match reshape_array("/dev/md0", true, Ok(ArrayState::Clean), &level, &config, false) {
        Err(MdError::ConfigValidation(m)) => assert_eq!(m, "No reshape operation specified"),
        r => panic!("{:?}", r),
    }
    config.target_level = Some(3);
    assert!(reshape_array("/dev/md0", true, Ok(ArrayState::Active), &level, &config, false).is_err());
    config.target_level = Some(6);
    config.backup_file = Some("/bk".to_string());
    config.target_chunk_size = Some(128);
    let plan = reshape_array("/dev/md0", true, Ok(ArrayState::Active), &level, &config, false).unwrap();
    assert!(plan.confirm);
    let got: Vec<(String, String)> = plan.writes.into_iter().map(|w| (w.attr, w.value)).collect();
    assert_eq!(got, vec![
        ("level".to_string(), "raid6".to_string()),
        ("sync_action".to_string(), "reshape /bk".to_string()),
        ("chunk_size".to_string(), "128".to_string()),
        ("sync_action".to_string(), "reshape".to_string()),
    ]);
}

#[test]
fn resizing_arrays() {
    let ws = change_device_count(4, 2).unwrap();
    assert_eq!(ws[0].value, "6");
    let ws = change_device_count(4, -1).unwrap();
    assert_eq!(ws[0].value, "3");
    match change_device_count(4, -4) {
        Err(MdError::ConfigValidation(m)) => assert_eq!(m, "Cannot remove 4 devices from array with 4 devices"),
        r => panic!("{:?}", r),
    }
    assert!(change_device_count(4, 0).unwrap().is_empty());
    assert_eq!(read_raid_disks(&Ok("4".to_string())).unwrap(), 4);
    match read_raid_disks(&Ok("four".to_string())) {
        Err(MdError::Sysfs(m)) => assert_eq!(m, "Failed to read raid_disks: invalid digit found in string"),
        r => panic!("{:?}", r),
    }
}

#[test]
fn confirmation_is_a_yes_in_any_case() {
    assert!(confirmed(" YES \n"));
    assert!(confirmed("yes"));
    assert!(!confirmed("y"));
}

#[test]
fn sync_progress_parses_done_over_total() {
    assert_eq!(sync_progress("100 / 400").unwrap(), SyncProgress::Partial(100, 400));
    assert_eq!(sync_progress("5 / 0").unwrap(), SyncProgress::Complete);
    assert_eq!(sync_progress("none").unwrap(), SyncProgress::Unknown);
    assert_eq!(sync_progress("1/2/3").unwrap(), SyncProgress::Unknown);
    match sync_progress("x / 4") {
        Err(MdError::Sysfs(m)) => assert_eq!(m, "Failed to parse completed: invalid digit found in string"),
        r => panic!("{:?}", r),
    }
    match sync_progress("1 / 99999999999999999999") {
        Err(MdError::Sysfs(m)) => assert_eq!(m, "Failed to parse total: number too large to fit in target type"),
        r => panic!("{:?}", r),
    }
}

#[test]
fn cancel_reshape_sets_idle() {
    let ws = writes(cancel_reshape("/dev/md0").unwrap());
    assert_eq!(ws[0], ("sync_action".to_string(), "idle".to_string(), "cancel reshape".to_string()));
}

#[test]
fn reshape_plan_lines() {
    let mut config = ReshapeConfig::default();
    config.device_delta = Some(-2);
    config.target_level = Some(5);
    let lines = print_reshape_plan(&config, &Some("raid1".to_string()), &None, &None);
    assert_eq!(lines[2], "RAID Level: raid1 → 5");
    assert_eq!(lines[3], "Operation: Shrink array by 2 devices");
}

#[test]
fn test_spare_config() {
    let config = SpareConfig { device: "/dev/sdd1".to_string(), force: false };
    assert_eq!(config.device, "/dev/sdd1");
    assert!(!config.force);
}

#[test]
fn test_spare_info() {
    let info = SpareInfo { device: "/dev/sdd1".to_string(), state: "spare".to_string(), slot: Some(3), is_spare: true };
    assert!(info.is_spare);
    assert_eq!(info.slot, Some(3));
}

fn entry(name: &str, state: &str, slot: Option<&str>, block: Option<&str>) -> MdDirEntry {
    MdDirEntry {
        name: name.to_string(),
        state: Ok(state.to_string()),
        slot: slot.map(|s| s.to_string()),
        block: block.map(|s| s.to_string()),
    }
}

#[test]
fn spares_are_the_members_in_spare_state() {
    let entries = vec![
        entry("dev-sda1", "in_sync\n", Some("0\n"), Some("sda1")),
        entry("dev-sdd1", "spare\n", Some("none\n"), Some("sdd1")),
        entry("level", "raid1", None, None),
        entry("dev-sde1", "spare", Some("3"), None),
    ];
    let spares = list_spares("/dev/md0", Ok(entries)).unwrap();
    assert_eq!(spares.len(), 2);
    assert_eq!(spares[0].device, "/dev/sdd1");
    assert_eq!(spares[0].state, "spare");
    assert_eq!(spares[0].slot, None);
    assert_eq!(spares[1].device, "unknown");
    assert_eq!(spares[1].slot, Some(3));
    let bad = vec![MdDirEntry { name: "dev-x".to_string(), state: Err("denied".to_string()), slot: None, block: None }];
    match list_spares("/dev/md0", Ok(bad)) {
        Err(MdError::Sysfs(m)) => assert_eq!(m, "Failed to read device state: denied"),
        r => panic!("{:?}", r),
    }
    assert_eq!(get_spare_count(list_spares("/dev/md0", Ok(vec![]))).unwrap(), 0);
}

#[test]
fn spare_operations() {
    let spares = || Ok(vec![SpareInfo { device: "/dev/sdd1".to_string(), state: "spare".to_string(), slot: None, is_spare: true }]);
    let ws = writes(remove_spare("/dev/md0", true, "/dev/sdd1", spares(), false).unwrap());
    assert_eq!(ws[0].0, "md/dev-sdd1/state");
    assert_eq!(ws[0].1, "remove");
    match remove_spare("/dev/md0", true, "/dev/sde1", spares(), false) {
        Err(MdError::ConfigValidation(m)) => assert_eq!(m, "Device /dev/sde1 is not a spare in array md0"),
        r => panic!("{:?}", r),
    }
    let ws = writes(activate_spare("/dev/md0", "/dev/sdd1", spares(), Some(2)).unwrap());
    assert_eq!(ws[0], ("md/dev-sdd1/slot".to_string(), "2".to_string(), "activate spare".to_string()));
    let ws = writes(activate_spare("/dev/md0", "/dev/sdd1", spares(), None).unwrap());
    assert_eq!(ws[0].1, "recover");
    let ws = writes(configure_spare_policy("/dev/md0", Some(1), Some(3)).unwrap());
    assert_eq!(ws.len(), 2);
    assert_eq!(ws[1].0, "md/max_spare");
    let ws = writes(add_spare("/dev/md0", true, "/dev/sdd1", true, true, Err(MdError::Timeout(1)), Ok(ArrayState::Clean), false).unwrap());
    assert_eq!(ws[0].0, "md/new_dev");
    match add_spare("/dev/md0", true, "/dev/sdd1", true, false, Err(MdError::Timeout(1)), Ok(ArrayState::Clean), false) {
        Err(MdError::Timeout(1)) => {}
        r => panic!("{:?}", r),
    }
    match add_spare("/dev/md0", true, "/dev/sdd1", true, true, Err(MdError::Timeout(1)), Err(MdError::Sysfs("x".to_string())), false) {
        Err(MdError::Sysfs(m)) => assert_eq!(m, "Failed to read array state: Sysfs Error: x"),
        r => panic!("{:?}", r),
    }
}

#[test]
fn mdstat_spare_marks() {
    let mdstat = "Personalities : [raid1]\nmd0 : active raid1 sdb1[1] sdd1[2](S) sda1[0]\n";
    assert!(is_spare_device("/dev/sdd1", mdstat).unwrap());
    assert!(!is_spare_device("/dev/sda1", "md0 : active raid1 sda1[0]\nother (S)\n").unwrap());
}

#[test]
fn created_members_share_a_random_v4_uuid() {
    let sizes = vec![1024 * 1024, 2 * 1024 * 1024, 1024 * 1024];
    let sbs = create_superblocks(5, 3, 2, &sizes, Some(65536), 1234);
    assert_eq!(sbs.len(), 3);
    let u = sbs[0].set_uuid;
    assert_eq!(u[6] & 0xF0, 0x40);
    assert_eq!(u[8] & 0xC0, 0x80);
    for (i, sb) in sbs.iter().enumerate() {
        assert_eq!(sb.set_uuid, u);
        assert_eq!(sb.dev_number, i as u32);
        assert_eq!(sb.chunksize, 128);
        assert_eq!(sb.ctime, 1234);
    }
    assert_eq!(sbs[1].data_size, 4096 - 16);
    assert_eq!(sbs[1].size, 4096 - 16);
    let again = create_superblocks(5, 3, 2, &sizes, None, 1234);
    assert_ne!(again[0].set_uuid, u);
}

#[test]
fn created_member_loads_back_from_its_offset() {
    let size: u64 = 1024 * 1024;
    for minor in 0..3u32 {
        let sbs = create_superblocks(1, 2, minor, &vec![size, size], None, 99);
        let sb = &sbs[1];
        assert_eq!(sb.super_offset * 512, SuperblockV1::offset_for_minor(minor, size));
        let mut bytes = sb.to_bytes();
        bytes.extend(vec![0u8; 64]);
        let empty = vec![0u8; 256];
        let (at2, at1, at0) = match minor {
            0 => (&empty, &empty, &bytes),
            1 => (&empty, &bytes, &empty),
            _ => (&bytes, &empty, &empty),
        };
        let back = SuperblockV1::load(size, at2, at1, at0).unwrap();
        assert_eq!(back.set_uuid, sb.set_uuid);
        assert_eq!(back.minor_version, minor);
        assert_eq!(back.dev_roles, vec![0, 1]);
        assert_eq!(back.dev_number, 1);
    }
}

#[test]
fn bitmap_added_reads_back_as_configured() {
    let config = BitmapConfig { location: BitmapLocation::Internal, chunk_size: Some(128), file_path: None, write_behind: None };
    let ws = writes(add_bitmap("/dev/md0", true, &Some("none".to_string()), &config, false).unwrap());
    let value = |attr: &str| ws.iter().find(|w| w.0 == attr).map(|w| w.1.clone());
    let attrs = BitmapAttrs { location: value("bitmap/location"), chunksize: value("bitmap/chunksize"), pages: None, dirty_pages: None };
    let info = get_bitmap_info("/dev/md0", &attrs).unwrap();
    assert!(info.enabled);
    assert_eq!(info.location, BitmapLocation::Internal);
    assert_eq!(info.chunk_size, Some(128));
}

#[test]
fn dry_runs_write_nothing() {
    let config = BitmapConfig::default();
    assert!(matches!(add_bitmap("/dev/md0", true, &None, &config, true), Ok(Plan::DryRun)));
    assert!(matches!(remove_bitmap("/dev/md0", true, &Some("+8".to_string()), true), Ok(Plan::DryRun)));
    let spares = Ok(vec![SpareInfo { device: "/dev/sdd1".to_string(), state: "spare".to_string(), slot: None, is_spare: true }]);
    assert!(matches!(remove_spare("/dev/md0", true, "/dev/sdd1", spares, true), Ok(Plan::DryRun)));
    assert!(matches!(
        add_spare("/dev/md0", true, "/dev/sdd1", true, true, Err(MdError::Timeout(1)), Ok(ArrayState::Clean), true),
        Ok(Plan::DryRun)
    ));
    let mut reshape = ReshapeConfig::default();
    reshape.target_level = Some(6);
    reshape.device_delta = Some(1);
    let plan = reshape_array("/dev/md0", true, Ok(ArrayState::Active), &Ok("raid5".to_string()), &reshape, true).unwrap();
    assert!(plan.dry_run);
    assert!(plan.writes.is_empty());
    assert!(plan.device_delta.is_none());
    assert!(matches!(ensure_md_device("/dev/md7", None, true), Ok(MdDeviceAction::DryRun)));
}

#[test]
fn listed_spares_are_one_per_spare_member_each_trimmed() {
    let entries = vec![
        entry("dev-a", "  spare \n", None, Some("sda")),
        entry("dev-b", "in_sync\n", Some("0"), Some("sdb")),
        entry("other", "spare\n", None, None),
        entry("dev-c", "spare,write_mostly\n", Some("1"), None),
    ];
    let spares = list_spares("/dev/md0", Ok(entries)).unwrap();
    assert_eq!(spares.len(), 2);
    for s in &spares {
        assert!(s.is_spare);
        assert!(s.state.contains("spare"));
        assert_eq!(s.state.trim(), s.state);
    }
    assert_eq!(spares[0].device, "/dev/sda");
    assert_eq!(spares[1].device, "unknown");
    assert_eq!(spares[1].slot, Some(1));
}
