use rmdadm::error::MdError;
use rmdadm::ops::manage::{manage, stop, array_name, state_or_unknown, ManageStep};
use rmdadm::ops::detail::{array_detail, detail_name, detail_state_text, detail_text};
use rmdadm::ops::assemble::{array_name_from_superblock, auto_target, is_candidate_block_device, find_components_by_uuid,
    ScannedDevice, member_disks, collect_loaded, array_info_for, format_byte_list};
use rmdadm::ops::monitor::status_text;
use rmdadm::ops::apply::{array_metadata, parse_failed, ArrayConfig};
use rmdadm::ioctl::MduArrayInfo;
use rmdadm::metadata::v1::SuperblockV1;
use rmdadm::paths::{device_name, device_name_or_error};
use rmdadm::sysfs::{ArrayState, MdSysfs};
use rmdadm::api::handlers::BlockEntry;
use rmdadm::text::split_on;

#[test]
fn device_names_are_the_last_path_component() {
    assert_eq!(device_name("/dev/md0").as_deref(), Some("md0"));
    assert_eq!(device_name("/dev/md0/").as_deref(), Some("md0"));
    assert_eq!(device_name("md1/.").as_deref(), Some("md1"));
    assert_eq!(device_name("/"), None);
    assert_eq!(device_name("/dev/.."), None);
    assert!(matches!(device_name_or_error(""), Err(MdError::InvalidDevice(_))));
}

#[test]
fn array_states_round_trip_through_their_text() {
    for word in ["clear", "inactive", "suspended", "readonly", "read-auto", "clean", "active", "write-pending", "active-idle", "odd"] {
        assert_eq!(ArrayState::parse(word).to_text(), word);
    }
    assert_eq!(ArrayState::from_sysfs(" clean\n"), ArrayState::Clean);
    let sys = MdSysfs::new("md0");
    assert_eq!(sys.base_path, "/sys/block/md0");
    assert_eq!(sys.attr_path("md/array_state"), "/sys/block/md0/md/array_state");
    assert_eq!(sys.get_sync_action(None), "idle");
    assert_eq!(sys.get_sync_action(Some("check\n")), "check");
    assert_eq!(sys.start_scrub(true).value, "repair");
}

#[test]
fn error_texts() {
    assert_eq!(MdError::MagicMismatch { expected: 0xa92b4efc, found: 0 }.to_text(),
        "Superblock magic mismatch: expected 0xa92b4efc, found 0x0");
    assert_eq!(MdError::ArrayDegraded("md0".to_string(), -1, 3).to_text(), "Array md0 is degraded: -1 failed disks out of 3");
    assert_eq!(MdError::Timeout(5).to_text(), "Operation timeout after 5 seconds");
    assert!(MdError::Timeout(5).is_recoverable());
    assert!(MdError::DataLossRisk(String::new()).is_data_loss_risk());
    match MdError::Sysfs("x".to_string()).context("ctx") {
        MdError::Sysfs(m) => assert_eq!(m, "ctx: x"),
        e => panic!("{:?}", e),
    }
}

#[test]
fn manage_refuses_failing_a_degraded_array_after_nothing() {
    let devs = Some(vec!["/dev/sdb".to_string()]);
    let plan = manage("degraded", &None, &None, &devs, false);
    assert!(plan.steps.is_empty());
    assert!(matches!(plan.error, Some(MdError::DataLossRisk(_))));
    let plan = manage("degraded", &devs, &None, &devs, true);
    assert_eq!(plan.steps.len(), 2);
    assert!(matches!(&plan.steps[0], ManageStep::Fail(d) if d == "/dev/sdb"));
    assert!(matches!(&plan.steps[1], ManageStep::Add(d) if d == "/dev/sdb"));
    let plan = manage("failed", &None, &devs, &devs, true);
    assert!(plan.error.is_none());
    assert_eq!(array_name("/dev/md3"), "md3");
    assert_eq!(state_or_unknown(&None), "unknown");
    assert!(stop(false, &Some(ArrayState::Clean)).is_ok());
    assert!(stop(true, &None).is_ok());
}

#[test]
fn details_of_an_array() {
    let info = MduArrayInfo { major_version: 1, minor_version: 2, level: 5, size: 100, raid_disks: 3, ..Default::default() };
    let d = array_detail("md0", "clean".to_string(), &info);
    assert_eq!(d.version, "1.2.0");
    assert_eq!(d.level, "raid5");
    let lines = detail_text(&info);
    assert_eq!(lines[0], "    Version : 1.2.0");
    assert_eq!(lines[2], " Array Size : 100");
    assert_eq!(detail_name("/dev/md0").unwrap(), "md0");
    assert_eq!(detail_state_text(&Err(MdError::Sysfs("gone".to_string()))), "Unknown (Sysfs Error: gone)");
}

#[test]
fn assembly_pieces() {
    let mut sb = SuperblockV1::default();
    sb.set_uuid = [0x12, 0x34, 0x56, 0x78, 0, 0, 0, 0, 0, 0, 0, 0, 0, 0, 0, 1];
    assert_eq!(array_name_from_superblock(&sb), "md-12345678");
    let mut name = [0u8; 32];
    name[..6].copy_from_slice(b" home ");
    sb.set_name = name;
    assert_eq!(array_name_from_superblock(&sb), "home");
    sb.raid_disks = 2;
    let (dev, n) = auto_target(&sb, &vec!["/dev/sda".to_string(), "/dev/sdb".to_string()]).unwrap();
    assert_eq!((dev.as_str(), n.as_str()), ("/dev/home", "home"));
    assert!(auto_target(&sb, &vec!["/dev/sda".to_string()]).is_err());
    assert!(is_candidate_block_device("/dev/nvme0n1", true));
    assert!(!is_candidate_block_device("/dev/tty0", true));
    assert!(!is_candidate_block_device("/dev/sda", false));
    let uuid = sb.set_uuid;
    let scanned = vec![
        ScannedDevice { path: "/dev/sdc".to_string(), is_block: true, uuid: Some(uuid) },
        ScannedDevice { path: "/dev/sdb".to_string(), is_block: true, uuid: Some(uuid) },
        ScannedDevice { path: "/dev/sdd".to_string(), is_block: true, uuid: Some([0; 16]) },
        ScannedDevice { path: "/dev/sda".to_string(), is_block: true, uuid: Some(uuid) },
    ];
    assert_eq!(find_components_by_uuid("/dev/sda", uuid, &scanned), vec!["/dev/sda", "/dev/sdb", "/dev/sdc"]);
    assert_eq!(format_byte_list(&[1; 16]), "[1, 1, 1, 1, 1, 1, 1, 1, 1, 1, 1, 1, 1, 1, 1, 1]");
    let sbs = collect_loaded(vec![Ok(sb.clone()), Ok(sb.clone())]).unwrap();
    let disks = member_disks(&sb, &sbs, &vec![Ok(8 << 8 | 1), Ok(8 << 8 | 17)]).unwrap();
    assert_eq!(disks[1].minor, 17);
    assert_eq!(disks[1].state, 6);
    let mut other = sb.clone();
    other.set_uuid = [0; 16];
    assert!(matches!(member_disks(&sb, &vec![sb.clone(), other], &vec![Ok(0), Ok(0)]), Err(MdError::UuidMismatch { .. })));
    sb.chunksize = 1024;
    let info = array_info_for(&sb, 9 << 8 | 3, 2);
    assert_eq!(info.chunk_size, 512 * 1024);
    assert_eq!(info.md_minor, 3);
}

#[test]
fn monitor_text_upper_cases_states() {
    let entries = vec![
        BlockEntry { name: "md0".to_string(), state: Some(ArrayState::Clean) },
        BlockEntry { name: "sda".to_string(), state: None },
        BlockEntry { name: "md1".to_string(), state: None },
    ];
    assert_eq!(status_text(&entries), "MD Arrays Status:\n\n🖴 md0 - State: [CLEAN]\n🖴 md1 - State: [UNKNOWN]\n");
}

#[test]
fn apply_defaults() {
    let a = ArrayConfig { name: "/dev/md0".to_string(), level: 1, metadata: None, devices: vec![] };
    assert_eq!(array_metadata(&a), "1.2");
    assert!(matches!(parse_failed("x"), MdError::InvalidMetadata(m) if m == "YAML parse error: x"));
}

#[test]
fn members_are_sorted_and_repeats_dropped_as_paths() {
    let uuid = [5u8; 16];
    let scanned = vec![
        ScannedDevice { path: "/dev/sdc".to_string(), is_block: true, uuid: Some(uuid) },
        ScannedDevice { path: "/dev/sdb".to_string(), is_block: true, uuid: Some(uuid) },
        ScannedDevice { path: "/dev//sdb".to_string(), is_block: true, uuid: Some(uuid) },
    ];
    assert_eq!(find_components_by_uuid("/dev/sda", uuid, &scanned), vec!["/dev/sda", "/dev/sdb", "/dev/sdc"]);
}

#[test]
fn splitting_at_a_character() {
    assert_eq!(split_on("a,b", ','), vec!["a".to_string(), "b".to_string()]);
    assert_eq!(split_on("", ','), vec!["".to_string()]);
    assert_eq!(split_on("a,", ','), vec!["a".to_string(), "".to_string()]);
}

#[test]
fn a_refused_removal_plans_no_step() {
    let devs = Some(vec!["/dev/sdb".to_string()]);
    let plan = manage("failed", &devs, &devs, &None, false);
    assert!(plan.steps.is_empty());
    assert!(matches!(plan.error, Some(MdError::DataLossRisk(m)) if m == "Cannot perform remove on array in failed state"));
    let plan = manage("clean", &devs, &devs, &devs, false);
    assert_eq!(plan.steps.len(), 3);
    assert!(plan.error.is_none());
}
