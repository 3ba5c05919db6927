use rmdadm::error::MdError;
use rmdadm::validation::{
    check_data_loss_risk, check_device_suitable, validate_devices_for_array, validate_raid_config, CommandOutput,
    DeviceInfo, DeviceProbe, MIN_DEVICE_SIZE,
};

#[test]
fn test_validate_raid_config() {
    assert!(validate_raid_config(0, 2).is_ok());
    assert!(validate_raid_config(1, 2).is_ok());
    assert!(validate_raid_config(5, 3).is_ok());
    assert!(validate_raid_config(6, 4).is_ok());

    assert!(validate_raid_config(0, 1).is_err());
    assert!(validate_raid_config(5, 2).is_err());
    assert!(validate_raid_config(10, 3).is_err());
    assert!(validate_raid_config(99, 10).is_err());
}

#[test]
fn test_check_data_loss_risk() {
    assert!(check_data_loss_risk("remove", "active").is_ok());
    assert!(check_data_loss_risk("remove", "degraded").is_err());
    assert!(check_data_loss_risk("stop", "failed").is_err());
}

#[test]
fn raid_config_errors() {
    match validate_raid_config(6, 3) {
        Err(MdError::InsufficientDevices { level, needed, actual }) => assert_eq!((level, needed, actual), (6, 4, 3)),
        r => panic!("{:?}", r),
    }
    match validate_raid_config(10, 5) {
        Err(MdError::ConfigValidation(m)) => assert_eq!(m, "RAID10 requires an even number of devices, got 5"),
        r => panic!("{:?}", r),
    }
    assert!(matches!(validate_raid_config(7, 5), Err(MdError::UnsupportedRaidLevel(7))));
    match check_data_loss_risk("stop", "failed") {
        Err(MdError::DataLossRisk(m)) => assert_eq!(m, "Cannot perform stop on array in failed state"),
        r => panic!("{:?}", r),
    }
}

fn ok(out: &str) -> Result<CommandOutput, String> {
    Ok(CommandOutput { success: true, stdout: out.to_string(), stderr: String::new() })
}

fn probe() -> DeviceProbe {
    DeviceProbe {
        exists: true,
        metadata: Ok(true),
        findmnt: ok(""),
        blkid: ok("linux_raid_member\n"),
        holders: Some(vec!["dm-0".to_string()]),
        blockdev: ok("1073741824\n"),
        smartctl: ok("SMART overall-health self-assessment test result: PASSED"),
    }
}

#[test]
fn a_free_large_block_device_is_suitable() {
    let info = check_device_suitable("/dev/sdb", probe()).unwrap();
    assert_eq!(info.path, "/dev/sdb");
    assert_eq!(info.size, 1073741824);
    assert!(info.smart_healthy);
}

#[test]
fn unsuitable_devices() {
    let mut p = probe();
    p.exists = false;
    match check_device_suitable("/dev/sdb", p) {
        Err(MdError::Io(m)) => assert_eq!(m, "Device /dev/sdb does not exist"),
        r => panic!("{:?}", r),
    }
    let mut p = probe();
    p.metadata = Ok(false);
    assert!(matches!(check_device_suitable("/dev/sdb", p), Err(MdError::NotBlockDevice(_))));
    let mut p = probe();
    p.findmnt = ok("/mnt\n");
    match check_device_suitable("/dev/sdb", p) {
        Err(MdError::DeviceMounted(_, at)) => assert_eq!(at, "/mnt"),
        r => panic!("{:?}", r),
    }
    let mut p = probe();
    p.blkid = ok("ext4\n");
    match check_device_suitable("/dev/sdb", p) {
        Err(MdError::DeviceHasFilesystem(_, f)) => assert_eq!(f, "ext4"),
        r => panic!("{:?}", r),
    }
    let mut p = probe();
    p.holders = Some(vec!["md127".to_string()]);
    assert!(matches!(check_device_suitable("/dev/sdb", p), Err(MdError::DeviceInUse(_))));
    let mut p = probe();
    p.blockdev = ok("1000");
    match check_device_suitable("/dev/sdb", p) {
        Err(MdError::DeviceTooSmall(_, s, m)) => assert_eq!((s, m), (1000, MIN_DEVICE_SIZE)),
        r => panic!("{:?}", r),
    }
    let mut p = probe();
    p.blockdev = ok("");
    match check_device_suitable("/dev/sdb", p) {
        Err(MdError::InvalidMetadata(m)) => assert_eq!(m, "Failed to parse device size: cannot parse integer from empty string"),
        r => panic!("{:?}", r),
    }
    let mut p = probe();
    p.blockdev = Ok(CommandOutput { success: false, stdout: String::new(), stderr: "no such device".to_string() });
    match check_device_suitable("/dev/sdb", p) {
        Err(MdError::InvalidMetadata(m)) => assert_eq!(m, "blockdev failed: no such device"),
        r => panic!("{:?}", r),
    }
    let mut p = probe();
    p.smartctl = ok("FAILED");
    assert!(!check_device_suitable("/dev/sdb", p).unwrap().smart_healthy);
}

#[test]
fn devices_for_an_array_are_checked_in_order() {
    let devices = vec!["/dev/a".to_string(), "/dev/b".to_string()];
    let info = |p: &str| DeviceInfo { path: p.to_string(), size: 1, smart_healthy: true };
    let checks = vec![Ok(info("/dev/a")), Err(MdError::Timeout(2))];
    assert!(matches!(validate_devices_for_array(&devices, 1, checks), Err(MdError::Timeout(2))));
    let checks = vec![Ok(info("/dev/a")), Ok(info("/dev/b"))];
    assert_eq!(validate_devices_for_array(&devices, 1, checks).unwrap().len(), 2);
    let checks = vec![Ok(info("/dev/a")), Ok(info("/dev/b"))];
    assert!(matches!(validate_devices_for_array(&devices, 5, checks), Err(MdError::InsufficientDevices { .. })));
}
