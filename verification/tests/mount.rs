use rsinit::mount::{
    do_mount, mount_apivfs, mount_move, mount_move_special, mount_root, mount_special, MountFlags,
    MS_BIND, MS_MOVE, MS_NODEV, MS_NOSUID, MS_RDONLY, MS_STRICTATIME,
};
use rsinit::util::{Action, Error};

fn mkdir(dir: &str) -> Action {
    Action::Mkdir {
        dir: dir.to_string(),
    }
}

fn api(target: &str, fstype: &str) -> Action {
    Action::Mount {
        source: Some(fstype.to_string()),
        target: target.to_string(),
        fstype: Some(fstype.to_string()),
        flags: MountFlags::empty(),
        data: None,
    }
}

#[test]
fn flags_are_those_of_the_kernel() {
    assert_eq!(MS_RDONLY, 1);
    assert_eq!(MS_NOSUID, 2);
    assert_eq!(MS_NODEV, 4);
    assert_eq!(MS_BIND, 4096);
    assert_eq!(MS_MOVE, 8192);
    assert_eq!(MS_STRICTATIME, 1 << 24);
}

#[test]
fn flags_insert_remove_contain() {
    let mut flags = MountFlags::empty();
    assert_eq!(flags.bits(), 0);
    flags.insert(MountFlags::from_bits(MS_NODEV));
    flags.insert(MountFlags::from_bits(MS_RDONLY));
    assert_eq!(flags.bits(), 5);
    assert!(flags.contains(MountFlags::from_bits(MS_RDONLY)));
    assert!(!flags.contains(MountFlags::from_bits(MS_NOSUID)));
    assert!(!flags.contains(MountFlags::from_bits(MS_NOSUID | MS_RDONLY)));
    flags.remove(MountFlags::from_bits(MS_RDONLY));
    assert_eq!(flags.bits(), 4);
    flags.remove(MountFlags::from_bits(MS_RDONLY));
    assert_eq!(flags.bits(), 4);
    assert_eq!(
        flags.union(MountFlags::from_bits(MS_BIND)),
        MountFlags::from_bits(MS_BIND | MS_NODEV)
    );
}

#[test]
fn a_mount_creates_its_mount_point_first() {
    assert_eq!(
        do_mount(
            Some("/dev/sda1"),
            "/mnt",
            Some("ext4"),
            MountFlags::from_bits(MS_RDONLY),
            Some("discard")
        ),
        vec![
            mkdir("/mnt"),
            Action::Mount {
                source: Some("/dev/sda1".to_string()),
                target: "/mnt".to_string(),
                fstype: Some("ext4".to_string()),
                flags: MountFlags::from_bits(1),
                data: Some("discard".to_string()),
            }
        ]
    );
    assert_eq!(mount_apivfs("/sys", "sysfs"), vec![mkdir("/sys"), api("/sys", "sysfs")]);
}

#[test]
fn special_file_systems_are_mounted_in_order() {
    assert_eq!(
        mount_special(),
        vec![
            mkdir("/dev"),
            api("/dev", "devtmpfs"),
            mkdir("/sys"),
            api("/sys", "sysfs"),
            mkdir("/proc"),
            api("/proc", "proc"),
        ]
    );
}

fn moved(from: &str, to: &str) -> Action {
    Action::MoveMount {
        from: from.to_string(),
        to: to.to_string(),
    }
}

fn removed(dir: &str) -> Action {
    Action::RemoveDir {
        dir: dir.to_string(),
    }
}

#[test]
fn a_directory_is_removed_only_after_its_mount_was_moved() {
    assert_eq!(
        mount_move("/dev", "/root/dev", true),
        vec![moved("/dev", "/root/dev"), removed("/dev")]
    );
    assert_eq!(mount_move("/dev", "/root/dev", false), vec![moved("/dev", "/root/dev")]);
    assert_eq!(
        mount_move_special(true),
        vec![
            moved("/dev", "/root/dev"),
            removed("/dev"),
            moved("/sys", "/root/sys"),
            removed("/sys"),
            moved("/proc", "/root/proc"),
            removed("/proc"),
        ]
    );
    assert_eq!(
        mount_move_special(false),
        vec![
            moved("/dev", "/root/dev"),
            moved("/sys", "/root/sys"),
            moved("/proc", "/root/proc"),
        ]
    );
}

#[test]
fn the_root_is_waited_for_unless_it_comes_over_the_network() {
    let flags = MountFlags::from_bits(MS_RDONLY);
    let mount = |source: &str, fstype: Option<&str>, data: Option<&str>| Action::Mount {
        source: Some(source.to_string()),
        target: "/root".to_string(),
        fstype: fstype.map(str::to_string),
        flags,
        data: data.map(str::to_string),
    };
    assert_eq!(
        mount_root(Some("/dev/mmcblk0p1"), None, flags, None),
        Ok(vec![
            Action::WaitForDevice {
                device: "/dev/mmcblk0p1".to_string()
            },
            mkdir("/root"),
            mount("/dev/mmcblk0p1", None, None),
        ])
    );
    assert_eq!(
        mount_root(Some("/dev/sda2"), Some("ext4"), flags, Some("noatime")),
        Ok(vec![
            Action::WaitForDevice {
                device: "/dev/sda2".to_string()
            },
            mkdir("/root"),
            mount("/dev/sda2", Some("ext4"), Some("noatime")),
        ])
    );
    for fstype in ["nfs", "9p"] {
        assert_eq!(
            mount_root(Some("host:/path"), Some(fstype), flags, Some("x")),
            Ok(vec![
                mkdir("/root"),
                mount("host:/path", Some(fstype), Some("x")),
            ])
        );
    }
}

#[test]
fn without_a_root_nothing_is_mounted() {
    let err = mount_root(None, Some("ext4"), MountFlags::empty(), None).expect_err("must fail");
    assert_eq!(err, Error::NoRoot);
    assert_eq!(err.message(), "root= not found in /proc/cmdline");
}

#[test]
fn a_failed_mount_is_said_with_all_that_was_asked() {
    let action = Action::Mount {
        source: Some("/dev/sda1".to_string()),
        target: "/root".to_string(),
        fstype: Some("ext4".to_string()),
        flags: MountFlags::from_bits(MS_RDONLY | MS_BIND),
        data: Some("discard".to_string()),
    };
    assert_eq!(
        action.failure("EINVAL: Invalid argument").message(),
        "Failed to mount /dev/sda1 -> /root as ext4 with flags = 0x1001, data = 'discard'): EINVAL: Invalid argument"
    );
    let action = Action::Mount {
        source: None,
        target: "/root/run".to_string(),
        fstype: None,
        flags: MountFlags::empty(),
        data: None,
    };
    assert_eq!(
        action.failure("EPERM").message(),
        "Failed to mount  -> /root/run as  with flags = 0x0, data = ''): EPERM"
    );
}

#[test]
fn other_failures_are_named_or_said_as_they_are() {
    assert_eq!(
        mkdir("/root").failure("Read-only file system").message(),
        "Failed to create /root: Read-only file system"
    );
    assert_eq!(
        moved("/dev", "/root/dev").failure("EBUSY").message(),
        "Failed to move mount /dev -> /root/dev: EBUSY"
    );
    assert_eq!(
        Action::ReadFile {
            path: "/proc/cmdline".to_string()
        }
        .failure("gone")
        .message(),
        "Failed to read /proc/cmdline: gone"
    );
    assert_eq!(removed("/dev").failure("Directory not empty").message(), "Directory not empty");
    assert_eq!(Action::UnlinkSelf.failure("ENOENT"), Error::failed("ENOENT"));
}
