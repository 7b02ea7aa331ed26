use lincstation_leds::disk_status::{
    build_device_report_list, check_all_drives, check_drive_status, check_single_drive,
    disk_stats_from_lines, parse_emmc, parse_nvme, parse_sata, slot, slot_index, sysfs_path,
    emmc_value_is_healthy, DiskStats, DriveParsingMethod, DriveStatus, EMMC_WEAR_LIMIT, SLOT_COUNT,
};

#[test]
fn emmc_life_time() {
    // level n stands for (n - 1) * 10% to n * 10% of life used; healthy under 60%
    assert_eq!(parse_emmc("0x01 0x01\n"), DriveStatus::Healthy);
    assert_eq!(parse_emmc("0x06 0x02\n"), DriveStatus::Healthy);
    assert_eq!(parse_emmc("0x02 0x07\n"), DriveStatus::Degraded);
    assert_eq!(parse_emmc("0x0A 0x01\n"), DriveStatus::Degraded);
    assert_eq!(parse_emmc("0x01 0x0B"), DriveStatus::Degraded);
    assert_eq!(parse_emmc("0x01"), DriveStatus::Healthy);
    assert_eq!(parse_emmc("0x0A"), DriveStatus::Degraded);
    assert_eq!(parse_emmc("0x0B"), DriveStatus::Degraded);
    assert_eq!(parse_emmc("05\n"), DriveStatus::Healthy);
    assert_eq!(parse_emmc("0xzz 0x01"), DriveStatus::Degraded);
    assert_eq!(parse_emmc(""), DriveStatus::Degraded);
    assert_eq!(parse_emmc("0x01 0x01 0x01"), DriveStatus::Degraded);
}

#[test]
fn emmc_single_values() {
    assert!(emmc_value_is_healthy("0x06"));
    assert!(!emmc_value_is_healthy("0x07"));
    assert!(!emmc_value_is_healthy("0x3A"));
    assert!(!emmc_value_is_healthy("x"));
    assert_eq!(EMMC_WEAR_LIMIT, 0x07);
}

#[test]
fn sata_state() {
    assert_eq!(parse_sata("running\n"), DriveStatus::Healthy);
    assert_eq!(parse_sata("  running  "), DriveStatus::Healthy);
    assert_eq!(parse_sata("offline"), DriveStatus::Degraded);
    assert_eq!(parse_sata("blocked"), DriveStatus::Degraded);
    assert_eq!(parse_sata("created"), DriveStatus::Degraded);
    assert_eq!(parse_sata("Running"), DriveStatus::Degraded);
}

#[test]
fn nvme_state() {
    assert_eq!(parse_nvme("live\n"), DriveStatus::Healthy);
    assert_eq!(parse_nvme("new"), DriveStatus::Degraded);
    assert_eq!(parse_nvme("resetting"), DriveStatus::Degraded);
    assert_eq!(parse_nvme("dead"), DriveStatus::Degraded);
}

#[test]
fn slots_and_paths() {
    assert_eq!(SLOT_COUNT, 8);
    let names: Vec<&str> = (0..SLOT_COUNT).map(|i| slot(i).slot_name).collect();
    assert_eq!(names, vec!["MGMT", "OS", "SATA1", "SATA2", "NVME1", "NVME2", "NVME3", "NVME4"]);
    assert_eq!(sysfs_path(&slot(1)), "/sys/block/mmcblk0/device/life_time");
    assert_eq!(sysfs_path(&slot(4)), "/sys/block/nvme0n1/device/state");
    assert_eq!(slot(0).driver_parsing_method, DriveParsingMethod::NETWORK);
    assert_eq!(slot_index("sdb"), Some(3));
    assert_eq!(slot_index("sdz"), None);
}

#[test]
fn single_drive() {
    let sata = slot(2);
    assert_eq!(check_single_drive(&sata, Some("running\n")), ("SATA1".to_string(), DriveStatus::Healthy));
    assert_eq!(check_single_drive(&sata, Some("offline")), ("SATA1".to_string(), DriveStatus::Degraded));
    assert_eq!(check_single_drive(&sata, None), ("SATA1".to_string(), DriveStatus::Missing));
    let mgmt = slot(0);
    assert_eq!(check_single_drive(&mgmt, Some("anything")), ("MGMT".to_string(), DriveStatus::Healthy));
}

#[test]
fn all_drives() {
    let contents = vec![
        None,
        Some("0x02 0x01\n".to_string()),
        Some("running\n".to_string()),
        None,
        Some("live\n".to_string()),
        Some("dead\n".to_string()),
    ];
    let r = check_all_drives(&contents);
    let statuses: Vec<DriveStatus> = r.iter().map(|x| x.1).collect();
    assert_eq!(
        statuses,
        vec![
            DriveStatus::Missing,
            DriveStatus::Healthy,
            DriveStatus::Healthy,
            DriveStatus::Missing,
            DriveStatus::Healthy,
            DriveStatus::Degraded,
            DriveStatus::Missing,
            DriveStatus::Missing,
        ]
    );
    assert_eq!(r[7].0, "NVME4");
}

#[test]
fn disk_stats_line() {
    let line = "   8       0 sda 1 2 3 4 5 6 7 8 9 10 11 12 13 14 15 16 17";
    let d = DiskStats::from_line(line);
    assert_eq!((d.major, d.minor), (8, 0));
    assert_eq!(d.device_name, "sda");
    assert_eq!(d.reads_completed, 1);
    assert_eq!(d.ms_doing_io, 10);
    assert_eq!(d.ms_flushing, 17);
    let short = DiskStats::from(String::from("259 1 nvme0n1p1 x 7"));
    assert_eq!(short.minor, 1);
    assert_eq!(short.device_name, "nvme0n1p1");
    assert_eq!(short.reads_completed, 0);
    assert_eq!(short.reads_merged, 7);
    assert_eq!(short.sectors_read, 0);
    let empty = DiskStats::from_line("");
    assert_eq!(empty.device_name, "");
    assert_eq!(empty.major, 0);
    let d0 = DiskStats::default();
    assert_eq!(d0.device_name, "");
    assert_eq!(d0.ms_flushing, 0);
}

#[test]
fn whole_devices_only() {
    let lines = vec![
        "8 0 sda 1 0 0 0 0 0 0 0 0 5".to_string(),
        "8 1 sda1 1 0 0 0 0 0 0 0 0 3".to_string(),
        "259 0 nvme0n1 4".to_string(),
    ];
    let r = disk_stats_from_lines(&lines);
    let names: Vec<&str> = r.iter().map(|d| d.device_name.as_str()).collect();
    assert_eq!(names, vec!["sda", "nvme0n1"]);
    assert_eq!(r[0].ms_doing_io, 5);
}

#[test]
fn report_list() {
    let detected = vec!["sda".to_string(), "loop0".to_string()];
    let r = build_device_report_list(&detected);
    assert_eq!(r, vec!["sda", "loop0", "TBD", "mmcblk0", "sdb", "nvme0n1", "nvme1n1", "nvme2n1", "nvme3n1"]);
}

#[test]
fn device_status() {
    assert_eq!(check_drive_status("nvme1n1", Some("live")), DriveStatus::Healthy);
    assert_eq!(check_drive_status("nvme1n1", None), DriveStatus::Missing);
    assert_eq!(check_drive_status("mmcblk0", Some("0x08 0x01\n")), DriveStatus::Degraded);
    assert_eq!(check_drive_status("mmcblk0", Some("0x01 0x01\n")), DriveStatus::Healthy);
    assert_eq!(check_drive_status("loop0", Some("live")), DriveStatus::Missing);
}
