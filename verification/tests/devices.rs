//! Discovery, parent-path, parsing and rendering tests.

use etchr_core::device::Device;
use etchr_core::errors::DiscoveryError;
use etchr_core::platform::linux;
use etchr_core::platform::linux::BlockDeviceRecord;
use etchr_core::platform::linux::MountRecord;
use etchr_core::platform::windows;
use etchr_core::text;

fn rec(name: &str, removable: Option<&str>, size: Option<&str>) -> BlockDeviceRecord {
    BlockDeviceRecord {
        name: name.to_string(),
        removable: removable.map(|s| s.to_string()),
        size: size.map(|s| s.to_string()),
    }
}

fn mount(device_name: &str, mount_point: &str) -> MountRecord {
    MountRecord { device_name: device_name.to_string(), mount_point: mount_point.to_string() }
}

#[test]
fn parent_device_path_collapses_partitions() {
    assert_eq!(linux::get_parent_device_path("/dev/sda1"), "/dev/sda");
    assert_eq!(linux::get_parent_device_path("/dev/sda"), "/dev/sda");
    assert_eq!(linux::get_parent_device_path("/dev/sdb12"), "/dev/sdb");
    assert_eq!(linux::get_parent_device_path("/dev/nvme0n1p1"), "/dev/nvme0n1");
    assert_eq!(linux::get_parent_device_path("/dev/nvme0n1"), "/dev/nvme0n1");
    assert_eq!(linux::get_parent_device_path("/dev/mmcblk0p2"), "/dev/mmcblk0");
    assert_eq!(linux::get_parent_device_path("/dev/vda1"), "/dev/vda1");
    assert_eq!(linux::get_parent_device_path(""), "");
}

#[test]
fn discovery_filters_and_resolves_mounts() {
    let mounts = vec![
        mount("nvme0n1p1", "/"),
        mount("sdb1", "/mnt/usb"),
        mount("sdd1", ""),
    ];
    let entries = vec![
        rec("loop0", Some("0"), Some("4096")),
        rec("nvme0n1", Some("0"), Some("1000215216")),
        rec("sdb", Some("1"), Some("61067264")),
        rec("sdc", Some("0"), Some("2048")),
        rec("sdd", Some("1"), Some("2048")),
        rec("sde", Some("1"), Some("0")),
        rec("sdf", Some("1"), Some("not-a-number")),
        rec("sdg", None, Some("2048")),
        rec("sdh", Some("1"), None),
    ];
    let devs = linux::get_removable_devices(&entries, &mounts).unwrap();
    let names: Vec<&str> = devs.iter().map(|d| d.name.as_str()).collect();
    assert_eq!(names, vec!["sdb", "sdd"]);
    assert_eq!(devs[0].path, "/dev/sdb");
    assert_eq!(devs[0].size_sectors, 61067264);
    assert_eq!(devs[0].mount_point, "/mnt/usb");
    // sdd1 is in the table but unmounted: the empty entry does not count.
    assert_eq!(devs[1].mount_point, "");
    // Every returned device has a positive size and is not the system disk.
    for d in &devs {
        assert!(d.size_sectors > 0);
        assert_ne!(d.path, "/dev/nvme0n1");
    }
}

#[test]
fn discovery_excludes_system_disk_parent() {
    // The root mount is backed by a partition; the whole disk is excluded.
    let mounts = vec![mount("sda2", "/")];
    let entries = vec![rec("sda", Some("1"), Some("2048")), rec("sdb", Some("1"), Some("2048"))];
    let devs = linux::get_removable_devices(&entries, &mounts).unwrap();
    let names: Vec<&str> = devs.iter().map(|d| d.name.as_str()).collect();
    assert_eq!(names, vec!["sdb"]);
}

#[test]
fn discovery_without_root_mount_fails() {
    let mounts = vec![mount("sdb1", "/mnt/usb")];
    let entries = vec![rec("sdb", Some("1"), Some("2048"))];
    let r = linux::get_removable_devices(&entries, &mounts);
    assert_eq!(r.err(), Some(DiscoveryError::SystemDriveUnknown));
}

#[test]
fn windows_discovery_is_unsupported() {
    let r = windows::get_removable_devices();
    assert_eq!(r.err(), Some(DiscoveryError::Unsupported));
}

#[test]
fn parse_u64_accepts_digits_only() {
    assert_eq!(text::parse_u64("0"), Some(0));
    assert_eq!(text::parse_u64("123"), Some(123));
    assert_eq!(text::parse_u64("18446744073709551615"), Some(u64::MAX));
    assert_eq!(text::parse_u64("18446744073709551616"), None);
    assert_eq!(text::parse_u64(""), None);
    assert_eq!(text::parse_u64("12a"), None);
    assert_eq!(text::parse_u64("-3"), None);
    assert_eq!(text::parse_u64(" 3"), None);
}

#[test]
fn u64_to_dec_formats_exactly() {
    assert_eq!(text::u64_to_dec(0), "0");
    assert_eq!(text::u64_to_dec(42), "42");
    assert_eq!(text::u64_to_dec(1000), "1000");
    assert_eq!(text::u64_to_dec(u64::MAX), "18446744073709551615");
}

#[test]
fn device_size_is_rounded_to_tenths() {
    let d = Device {
        path: "/dev/sdb".to_string(),
        name: "sdb".to_string(),
        size_sectors: 31116288,
        mount_point: String::new(),
    };
    // 31116288 sectors = 15931539456 bytes = 14.84... GB, rounded to 14.8.
    assert_eq!(d.size_tenths_gb(), 148);
}

#[test]
fn device_display_line_is_fixed_width() {
    let mounted = Device {
        path: "/dev/sdb".to_string(),
        name: "sdb".to_string(),
        size_sectors: 61067264,
        mount_point: "/mnt/usb".to_string(),
    };
    assert_eq!(mounted.display_line(), "/dev/sdb        29.1 GB [Mounted at /mnt/usb]");
    let unmounted = Device {
        path: "/dev/mmcblk0".to_string(),
        name: "mmcblk0".to_string(),
        size_sectors: 2048,
        mount_point: String::new(),
    };
    assert_eq!(unmounted.display_line(), "/dev/mmcblk0    0.0 GB [Not mounted]");
}
