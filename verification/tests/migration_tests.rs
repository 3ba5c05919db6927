use rmdadm::error::MdError;
use rmdadm::migration::{
    copy_step, pause_requested, sanitize_path, device_size, CopyStep, MigrationJob, MigrationState, MigrationStatus,
    COPY_BUFFER_SIZE,
};
use rmdadm::validation::CommandOutput;

fn job() -> MigrationJob {
    MigrationJob::with_state_dir("/dev/md0".to_string(), "/dev/md1".to_string(), "/tmp/state".to_string())
}

#[test]
fn ids_and_state_paths() {
    assert_eq!(sanitize_path("/dev/md0"), "_dev_md0");
    let j = job();
    assert_eq!(j.id(), "_dev_md0-to-_dev_md1");
    assert_eq!(j.state_path(), "/tmp/state/_dev_md0-to-_dev_md1.json");
    let d = MigrationJob::new("a".to_string(), "b".to_string());
    assert_eq!(d.state_dir, "/var/lib/rmdadm/migrations");
}

#[test]
fn a_copy_runs_to_completion_in_steps() {
    let j = job();
    assert!(j.check_devices(true, true).is_ok());
    assert!(matches!(j.check_devices(false, true), Err(MdError::DeviceNotFound(p)) if p == "/dev/md0"));
    assert!(matches!(j.start_state(0, 100, 50), Err(MdError::DeviceTooSmall(_, 50, 100))));
    let s = j.start_migration(true, true, Ok(()), Ok(10), Ok(64)).unwrap();
    assert_eq!(s.bytes_copied, 0);
    assert_eq!(s.status, MigrationStatus::Running);
    let s = match copy_step(s, false, 4) {
        CopyStep::Continue(s) => s,
        other => panic!("{:?}", other),
    };
    assert_eq!(s.bytes_copied, 4);
    let s = match copy_step(s, false, 0) {
        CopyStep::Done(s) => s,
        other => panic!("{:?}", other),
    };
    assert_eq!(s.status, MigrationStatus::Completed);
    assert_eq!(s.bytes_copied, 10);
}

#[test]
fn pause_then_resume_goes_on_from_the_copied_bytes() {
    let j = job();
    let s = j.start_state(3, 10, 10).unwrap();
    let (p, save) = j.pause_migration(Ok(s.clone())).unwrap();
    assert!(save);
    assert_eq!(p.status, MigrationStatus::Paused);
    assert!(pause_requested(&Ok(p.clone())));
    assert_eq!(j.resume_migration(Ok(p.clone())).unwrap(), 3);
    let (again, save) = j.pause_migration(Ok(p)).unwrap();
    assert!(!save);
    assert_eq!(again.status, MigrationStatus::Paused);
    match copy_step(s, true, 5) {
        CopyStep::Paused(t) => assert_eq!(t.bytes_copied, 3),
        other => panic!("{:?}", other),
    }
    assert!(j.status(Err(MdError::Timeout(1))).is_err());
}

#[test]
fn device_sizes_fall_back_to_the_file_length() {
    let ok = Ok(CommandOutput { success: true, stdout: "4096\n".to_string(), stderr: String::new() });
    assert_eq!(device_size(&ok, Ok(1)).unwrap(), 4096);
    let failed = Ok(CommandOutput { success: false, stdout: String::new(), stderr: String::new() });
    assert_eq!(device_size(&failed, Ok(21)).unwrap(), 21);
    let bad = Ok(CommandOutput { success: true, stdout: "-1".to_string(), stderr: String::new() });
    assert!(matches!(device_size(&bad, Ok(21)), Err(MdError::InvalidMetadata(_))));
}

#[test]
fn migrates_regular_files_with_state() {
    let source: Vec<u8> = b"rmdadm migration data".to_vec();
    let mut target: Vec<u8> = vec![0u8; 64];
    let job = MigrationJob::with_state_dir("source.img".to_string(), "target.img".to_string(), "state".to_string());
    let mut saved: MigrationState =
        job.start_migration(true, true, Ok(()), Ok(source.len() as u64), Ok(target.len() as u64)).unwrap();
    let mut pos: usize = 0;
    let state = loop {
        let pause = pause_requested(&Ok(saved.clone()));
        let read = if pause { 0 } else { (source.len() - pos).min(COPY_BUFFER_SIZE) };
        target[pos..pos + read].copy_from_slice(&source[pos..pos + read]);
        pos += read;
        match copy_step(saved.clone(), pause, read as u64) {
            CopyStep::Continue(s) => saved = s,
            CopyStep::Done(s) | CopyStep::Paused(s) => {
                saved = s.clone();
                break s;
            }
        }
    };
    assert_eq!(state.status, MigrationStatus::Completed);
    assert_eq!(&target[..21], b"rmdadm migration data");
    assert_eq!(job.status(Ok(saved)).unwrap().status, MigrationStatus::Completed);
}

#[test]
fn a_resumed_copy_runs_from_the_copied_bytes() {
    let j = job();
    let s = j.start_state(0, 100, 100).unwrap();
    let s = match copy_step(s, false, 40) {
        CopyStep::Continue(s) => s,
        other => panic!("{:?}", other),
    };
    let (paused, _) = j.pause_migration(Ok(s)).unwrap();
    let offset = j.resume_migration(Ok(paused)).unwrap();
    let again = j.start_state(offset, 100, 120).unwrap();
    assert_eq!(again.bytes_copied, 40);
    assert_eq!(again.status, MigrationStatus::Running);
    assert!(matches!(j.check_devices(true, false), Err(MdError::DeviceNotFound(p)) if p == "/dev/md1"));
}

#[test]
fn a_copy_does_not_start_on_missing_or_small_arrays() {
    let j = job();
    assert!(matches!(j.start_migration(false, false, Ok(()), Ok(10), Ok(10)), Err(MdError::DeviceNotFound(p)) if p == "/dev/md0"));
    assert!(matches!(j.start_migration(false, true, Ok(()), Ok(10), Ok(10)), Err(MdError::DeviceNotFound(p)) if p == "/dev/md0"));
    assert!(matches!(j.start_migration(true, false, Ok(()), Ok(10), Ok(10)), Err(MdError::DeviceNotFound(p)) if p == "/dev/md1"));
    assert!(matches!(
        j.start_migration(true, true, Ok(()), Ok(100), Ok(50)),
        Err(MdError::DeviceTooSmall(p, 50, 100)) if p == "/dev/md1"
    ));
    assert!(matches!(j.start_migration(true, true, Err(MdError::Timeout(2)), Ok(1), Ok(1)), Err(MdError::Timeout(2))));
    assert!(matches!(j.start_migration(true, true, Ok(()), Err(MdError::Timeout(3)), Ok(1)), Err(MdError::Timeout(3))));
    assert!(matches!(j.start_migration(true, true, Ok(()), Ok(1), Err(MdError::Timeout(4))), Err(MdError::Timeout(4))));
    let s = j.begin_copy(7, true, true, Ok(()), Ok(10), Ok(10)).unwrap();
    assert_eq!(s.bytes_copied, 7);
    assert_eq!(s.bytes_total, 10);
    assert_eq!(s.id, "_dev_md0-to-_dev_md1");
}
