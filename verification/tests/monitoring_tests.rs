use rmdadm::monitoring::{parse_smartctl_output, parse_attribute, parse_temperature, FailureDetector};
use rmdadm::validation::CommandOutput;

#[test]
fn parses_smartctl_failure_indicators() {
    let output = r#"
SMART overall-health self-assessment test result: PASSED
  1 Raw_Read_Error_Rate     0x000f   100   099   006    Pre-fail  Always       -       1
  5 Reallocated_Sector_Ct   0x0033   100   100   010    Pre-fail  Always       -       2
194 Temperature_Celsius     0x0022   067   050   000    Old_age   Always       -       33
197 Current_Pending_Sector  0x0012   100   100   000    Old_age   Always       -       1
"#;

    let status = parse_smartctl_output("/dev/sda", output, true, 100);

    assert!(status.predictive_failure);
    assert!(!status.is_healthy);
    assert_eq!(status.read_error_rate, 1);
    assert_eq!(status.temperature_celsius, Some(33));
}

#[test]
fn details_list_the_reasons() {
    let output = "SMART Health Status: FAILED\n  5 Reallocated_Sector_Ct - 2\n197 Current_Pending_Sector - 1\n";
    let status = parse_smartctl_output("/dev/sdb", output, false, 100);
    assert_eq!(status.details, vec![
        "smartctl returned a non-zero status".to_string(),
        "SMART health reports failure or pre-fail indicators".to_string(),
        "2 reallocated sectors".to_string(),
        "1 pending sectors".to_string(),
    ]);
}

#[test]
fn a_clean_report_is_healthy() {
    let output = "  1 Raw_Read_Error_Rate x 5\n241 Total_LBAs_Written x 99\n";
    let status = parse_smartctl_output("/dev/sdc", output, true, 100);
    assert!(status.is_healthy);
    assert_eq!(status.write_error_rate, 99);
    assert_eq!(status.temperature_celsius, None);
    assert!(status.details.is_empty());
}

#[test]
fn attributes_and_temperature() {
    assert_eq!(parse_attribute("a Foo 1 2 3\nb Foo 9\n", "Foo"), Some(3));
    assert_eq!(parse_attribute("a Foo x\n", "Foo"), None);
    assert_eq!(parse_temperature("190 Airflow_Temperature_Cel - -5\n"), Some(-5));
}

#[test]
fn unavailable_smartctl() {
    let d = FailureDetector::new(10);
    let runs = vec![Err("not found".to_string()), Ok(CommandOutput { success: true, stdout: "ok".to_string(), stderr: String::new() })];
    let devices = vec!["/dev/a".to_string(), "/dev/b".to_string()];
    let st = d.analyze_devices(&devices, &runs);
    assert!(!st[0].smart_available);
    assert_eq!(st[0].details, vec!["smartctl unavailable: not found".to_string()]);
    assert!(st[1].smart_available);
    assert_eq!(st[1].device_name, "/dev/b");
}

#[test]
fn the_nonzero_status_note_stands_only_when_the_command_failed() {
    let output = "  5 Reallocated_Sector_Ct   0x0033   100   100   010    Pre-fail  Always       -       2\nSMART Health Status: FAILED\n";
    let ok = parse_smartctl_output("/dev/sdb", output, true, 100);
    assert!(!ok.details.iter().any(|d| d == "smartctl returned a non-zero status"));
    assert_eq!(ok.details.len(), 2);
    let failed = parse_smartctl_output("/dev/sdb", output, false, 100);
    assert_eq!(failed.details[0], "smartctl returned a non-zero status");
    assert_eq!(failed.details.len(), 3);
}
