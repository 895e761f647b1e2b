use imge::{select_drives, DeviceInfo};

fn device(name: &str, removable: bool, mounts: Vec<Option<String>>, sectors: u64) -> DeviceInfo {
    DeviceInfo {
        name: name.to_string(),
        model: Some(format!("Model {}", name)),
        serial: None,
        is_removable: removable,
        mountpoints: mounts,
        sectors,
    }
}

#[test]
fn only_removable_drives_by_default() {
    let devices = vec![
        device("sda", false, vec![Some("/".to_string())], 1000),
        device("sdc", true, vec![None, None], 2),
        device("sdb", true, vec![None, Some("/media/usb".to_string())], 8),
    ];
    let drives = select_drives(&devices, false);
    assert_eq!(drives.len(), 2);
    assert_eq!(drives[0].name, "/dev/sdb");
    assert_eq!(drives[0].size, 4096);
    assert!(drives[0].is_mounted);
    assert!(drives[0].is_removable);
    assert_eq!(drives[0].model, "Model sdb");
    assert_eq!(drives[0].serial, "");
    assert_eq!(drives[1].name, "/dev/sdc");
    assert_eq!(drives[1].size, 1024);
    assert!(!drives[1].is_mounted);
}

#[test]
fn all_drives_sorted_by_name() {
    let devices = vec![
        device("sdb", true, vec![], 1),
        device("nvme0n1", false, vec![Some("/".to_string())], 3),
        device("sda", false, vec![], 2),
        device("mmcblk0", true, vec![], 4),
    ];
    let drives = select_drives(&devices, true);
    let names: Vec<&str> = drives.iter().map(|d| d.name.as_str()).collect();
    assert_eq!(names, vec!["/dev/mmcblk0", "/dev/nvme0n1", "/dev/sda", "/dev/sdb"]);
    assert_eq!(drives[1].size, 1536);
    assert!(drives[1].is_mounted);
}

#[test]
fn prefix_name_sorts_first() {
    let devices = vec![device("sda1", true, vec![], 1), device("sda", true, vec![], 1)];
    let drives = select_drives(&devices, false);
    assert_eq!(drives[0].name, "/dev/sda");
    assert_eq!(drives[1].name, "/dev/sda1");
}

#[test]
fn no_devices_no_drives() {
    assert!(select_drives(&Vec::new(), true).is_empty());
    let devices = vec![device("sda", false, vec![], 1)];
    assert!(select_drives(&devices, false).is_empty());
}
