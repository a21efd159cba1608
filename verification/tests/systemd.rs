use rsinit::init::{kmsg_priority, kmsg_record, LogLevel};
use rsinit::systemd::shutdown;
use rsinit::text::chars_le;
use rsinit::util::{Action, RebootMode};

const MOUNTINFO: &str = "\
22 1 0:21 / /oldroot rw,relatime - ext4 /dev/root rw
23 22 0:5 / /oldroot/dev rw,nosuid - devtmpfs devtmpfs rw
24 22 0:22 / /oldroot/sys rw - sysfs sysfs rw
25 23 0:23 / /oldroot/dev/pts rw - devpts devpts rw
26 1 0:24 / /run rw - tmpfs tmpfs rw
27 22 0:25 / /oldroot/run rw - tmpfs tmpfs rw
28 22 0:26 / /oldroot/dev rw - tmpfs tmpfs rw
29 1 0:27 / /mnt/oldroot rw - tmpfs tmpfs rw
30 1 0:28 / /oldrootfs rw - tmpfs tmpfs rw
31 1 0:29 /oldroot /other rw - tmpfs tmpfs rw
32 1 0:30 /
";

fn umount(target: &str) -> Action {
    Action::Umount {
        target: target.to_string(),
    }
}

#[test]
fn what_lies_below_the_old_root_is_unmounted_in_descending_order() {
    assert_eq!(
        shutdown(Some(MOUNTINFO), Some("poweroff")),
        vec![
            umount("/oldrootfs"),
            umount("/oldroot/sys"),
            umount("/oldroot/run"),
            umount("/oldroot/dev/pts"),
            umount("/oldroot/dev"),
            umount("/oldroot/dev"),
            umount("/oldroot"),
            Action::Reboot {
                mode: RebootMode::PowerOff
            },
        ]
    );
}

#[test]
fn the_order_is_that_of_std() {
    let mut points = vec![
        "/oldroot/b",
        "/oldroot",
        "/oldroot/a/b",
        "/oldroot/\u{e9}",
        "/oldroot/a",
        "/oldroot/a b",
        "/oldroot/B",
        "/oldroot/a/",
        "/oldroot/~",
        "/oldroot/\u{1f600}",
    ];
    let text: String = points
        .iter()
        .map(|p| format!("1 2 3 4 {p}\n"))
        .collect();
    let plan = shutdown(Some(&text), None);
    points.retain(|p| !p.contains(' '));
    points.push("/oldroot/a");
    points.sort();
    points.reverse();
    let mut expected: Vec<Action> = points.iter().map(|p| umount(p)).collect();
    expected.push(Action::Reboot {
        mode: RebootMode::Autoboot,
    });
    assert_eq!(plan, expected);

    let chars = |s: &str| s.chars().collect::<Vec<char>>();
    for a in ["", "a", "ab", "b", "a\u{e9}", "\u{1f600}"] {
        for b in ["", "a", "ab", "b", "a\u{e9}", "\u{1f600}"] {
            assert_eq!(chars_le(&chars(a), &chars(b)), a <= b, "{a:?} <= {b:?}");
        }
    }
}

#[test]
fn without_the_list_of_mounts_the_machine_just_goes_down() {
    for (arg, mode) in [
        (Some("halt"), RebootMode::Halt),
        (Some("kexec"), RebootMode::Kexec),
        (Some("poweroff"), RebootMode::PowerOff),
        (Some("reboot"), RebootMode::Autoboot),
        (Some(""), RebootMode::Autoboot),
        (Some("Halt"), RebootMode::Autoboot),
        (None, RebootMode::Autoboot),
    ] {
        assert_eq!(shutdown(None, arg), vec![Action::Reboot { mode }]);
        assert_eq!(shutdown(Some(""), arg), vec![Action::Reboot { mode }]);
    }
    assert_eq!(
        umount("/oldroot").failure("EBUSY").message(),
        "Failed to unmount /oldroot: EBUSY"
    );
    assert_eq!(
        Action::Reboot {
            mode: RebootMode::Halt
        }
        .failure("EPERM")
        .message(),
        "reboot failed: EPERM"
    );
}

#[test]
fn records_of_the_log_carry_their_priority() {
    assert_eq!(kmsg_priority(LogLevel::Error), 3 | (1 << 3));
    assert_eq!(kmsg_priority(LogLevel::Warn), 4 | (1 << 3));
    assert_eq!(kmsg_priority(LogLevel::Info), 6 | (1 << 3));
    assert_eq!(kmsg_priority(LogLevel::Debug), 7 | (1 << 3));
    assert_eq!(kmsg_priority(LogLevel::Trace), 7 | (1 << 3));
    assert_eq!(
        kmsg_record(LogLevel::Debug, "Starting /sbin/init ...\n"),
        "<15> rsinit: Starting /sbin/init ...\n"
    );
    assert_eq!(kmsg_record(LogLevel::Error, ""), "<11> rsinit: ");
}
