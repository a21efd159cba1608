use std::cell::RefCell;

use rsinit::cmdline::{ensure_value, tokenize, CmdlineOptions, CmdlineToken};
use rsinit::mount::{MountFlags, MS_RDONLY};
use rsinit::util::Error;

const NO_TABLE: Result<&str, &str> = Err("Failed to read /proc/net/pnp: No such file or directory");

#[test]
fn test_regular() {
    let cmdline = "root=/dev/mmcblk0p1 rw\n";

    let expected = CmdlineOptions {
        root: Some("/dev/mmcblk0p1".into()),
        rootfsflags: MountFlags::empty(),
        ..Default::default()
    };

    let options = CmdlineOptions::new()
        .from_string(cmdline, NO_TABLE)
        .expect("failed");

    assert_eq!(options, expected);
}

#[test]
fn test_nfs() {
    let cmdline = "root=/dev/nfs nfsroot=192.168.42.23:/path/to/nfsroot,v3,tcp ip=dhcp console=ttymxc1,115200n8 rootwait ro\n";

    let expected = CmdlineOptions {
        root: Some("192.168.42.23:/path/to/nfsroot".into()),
        rootflags: Some("nolock,v3,tcp,addr=192.168.42.23".into()),
        rootfsflags: MountFlags::from_bits(MS_RDONLY),
        nfsroot: Some("192.168.42.23:/path/to/nfsroot,v3,tcp".into()),
        rootfstype: Some("nfs".into()),
        ..Default::default()
    };

    let options = CmdlineOptions::new()
        .from_string(cmdline, NO_TABLE)
        .expect("failed");

    assert_eq!(options, expected);
}

#[test]
fn test_9p_qemu() {
    let cmdline = "root=/dev/root rootfstype=9p rootflags=trans=virtio console=ttyAMA0,115200\n";

    let expected = CmdlineOptions {
        root: Some("/dev/root".into()),
        rootfstype: Some("9p".into()),
        rootflags: Some("trans=virtio".into()),
        ..Default::default()
    };

    let options = CmdlineOptions::new()
        .from_string(cmdline, NO_TABLE)
        .expect("failed");

    assert_eq!(options, expected);
}

#[test]
fn test_9p_usbg() {
    let cmdline = "root=rootdev rootfstype=9p rootflags=trans=usbg,cache=loose,uname=root,dfltuid=0,dfltgid=0,aname=/path/to/9pfsroot rw\n";

    let expected = CmdlineOptions {
        root: Some("rootdev".into()),
        rootfstype: Some("9p".into()),
        rootflags: Some(
            "trans=usbg,cache=loose,uname=root,dfltuid=0,dfltgid=0,aname=/path/to/9pfsroot".into(),
        ),
        rootfsflags: MountFlags::empty(),
        ..Default::default()
    };

    let options = CmdlineOptions::new()
        .from_string(cmdline, NO_TABLE)
        .expect("failed");

    assert_eq!(options, expected);
}

#[test]
fn test_init() {
    let cmdline = "root=/dev/mmcblk0p1 init=/bin/sh\n";

    let expected = CmdlineOptions {
        root: Some("/dev/mmcblk0p1".into()),
        init: "/bin/sh".into(),
        ..Default::default()
    };

    let options = CmdlineOptions::new()
        .from_string(cmdline, NO_TABLE)
        .expect("failed");

    assert_eq!(options, expected);
}

#[test]
fn test_callbacks() {
    let cmdline = "root=/dev/mmcblk0p1 rsinit.custom=xyz\n";
    let custom_value = RefCell::new(String::new());

    let expected = CmdlineOptions {
        root: Some("/dev/mmcblk0p1".into()),
        ..Default::default()
    };

    let cb = Box::new(|key: &str, value: Option<&str>| {
        match key {
            "rsinit.custom" => {
                *custom_value.borrow_mut() = ensure_value(key, value)?.to_owned();
            }
            _ => {}
        }
        Result::<(), Error>::Ok(())
    });

    let options = CmdlineOptions::new_with_callbacks(vec![cb])
        .from_string(cmdline, NO_TABLE)
        .expect("failed");

    assert_eq!(options, expected);
    assert_eq!(&*custom_value.borrow(), "xyz");
}

#[test]
fn defaults_are_read_only_sbin_init() {
    let options = CmdlineOptions::new();
    assert_eq!(options.root, None);
    assert_eq!(options.rootfstype, None);
    assert_eq!(options.rootflags, None);
    assert_eq!(options.rootfsflags.bits(), 1);
    assert_eq!(options.nfsroot, None);
    assert_eq!(options.init, "/sbin/init");
    assert!(options.cleanup);
}

fn token(key: &str, value: Option<&str>) -> CmdlineToken {
    CmdlineToken {
        key: key.to_string(),
        value: value.map(str::to_string),
    }
}

#[test]
fn tokens_split_at_separators() {
    assert_eq!(
        tokenize("a=1 b\nc=2=3  =x d=\n"),
        vec![
            token("a", Some("1")),
            token("b", None),
            token("c", Some("2=3")),
            token("d", Some("")),
        ]
    );
}

#[test]
fn text_after_the_last_separator_is_not_read() {
    assert_eq!(tokenize("root=/dev/sda1"), vec![]);
    assert_eq!(tokenize("ro root=/dev/sda1"), vec![token("ro", None)]);
    assert_eq!(tokenize(""), vec![]);
}

#[test]
fn quotes_keep_separators_and_are_left_out() {
    assert_eq!(
        tokenize("opt=\"a b\" \"k\"=v x=\"\" \"\" y=\"1\n2\"\n"),
        vec![
            token("opt", Some("a b")),
            token("k", Some("v")),
            token("x", Some("")),
            token("y", Some("1\n2")),
        ]
    );
    assert_eq!(tokenize("a=\"never closed \n"), vec![]);
}

#[test]
fn last_occurrence_wins() {
    let options = CmdlineOptions::new()
        .from_string(
            "root=/dev/a init=/bin/one rw root=/dev/b rootflags=x ro rw ro init=/bin/two rootflags\n",
            NO_TABLE,
        )
        .expect("failed");
    assert_eq!(options.root.as_deref(), Some("/dev/b"));
    assert_eq!(options.init, "/bin/two");
    assert_eq!(options.rootflags, None);
    assert!(options.rootfsflags.contains(MountFlags::from_bits(MS_RDONLY)));
}

#[test]
fn ro_and_rw_ignore_a_value() {
    let options = CmdlineOptions::new()
        .from_string("rw=1\n", NO_TABLE)
        .expect("failed");
    assert_eq!(options.rootfsflags, MountFlags::empty());
    let options = options.from_string("ro=no\n", NO_TABLE).expect("failed");
    assert_eq!(options.rootfsflags, MountFlags::from_bits(MS_RDONLY));
}

#[test]
fn the_receiver_has_no_part_in_the_outcome() {
    let other = CmdlineOptions {
        root: Some("/dev/other".into()),
        rootfsflags: MountFlags::empty(),
        init: "/bin/other".into(),
        cleanup: false,
        ..Default::default()
    };
    let expected = CmdlineOptions {
        init: "/bin/sh".into(),
        ..Default::default()
    };
    assert_eq!(other.from_string("init=/bin/sh\n", NO_TABLE), Ok(expected));
    assert_eq!(other.from_string("\n", NO_TABLE), Ok(CmdlineOptions::new()));
    assert_eq!(CmdlineOptions::scan(""), Ok(CmdlineOptions::new()));
}

#[test]
fn the_read_only_attribute_follows_the_last_of_ro_and_rw() {
    for (cmdline, read_only) in [
        ("\n", true),
        ("quiet\n", true),
        ("rw\n", false),
        ("ro\n", true),
        ("rw ro\n", true),
        ("ro rw\n", false),
        ("rw root=/dev/a ro init=/x rw\n", false),
        ("rw rw ro\n", true),
    ] {
        let options = CmdlineOptions::new()
            .from_string(cmdline, NO_TABLE)
            .expect("failed");
        assert_eq!(options.rootfsflags.bits(), if read_only { MS_RDONLY } else { 0 });
    }
}

#[test]
fn the_network_table_is_needed_only_for_an_nfs_root_without_server() {
    assert!(CmdlineOptions::needs_network_table("root=/dev/nfs nfsroot=/srv,v3\n"));
    assert!(CmdlineOptions::needs_network_table("rootfstype=nfs nfsroot=/srv\n"));
    assert!(!CmdlineOptions::needs_network_table("root=/dev/nfs nfsroot=h:/srv\n"));
    assert!(CmdlineOptions::needs_network_table("root=/dev/nfs nfsroot=/srv,a:b\n"));
    assert!(!CmdlineOptions::needs_network_table("root=/dev/nfs\n"));
    assert!(!CmdlineOptions::needs_network_table("root=/dev/sda1 nfsroot=/srv\n"));
    assert!(!CmdlineOptions::needs_network_table("root=/dev/nfs nfsroot=/srv init\n"));
}

#[test]
fn missing_value_is_an_error() {
    for key in ["root", "rootfstype", "nfsroot", "init"] {
        let cmdline = format!("{key}\n");
        let err = CmdlineOptions::new()
            .from_string(&cmdline, NO_TABLE)
            .expect_err("must fail");
        assert_eq!(
            err,
            Error::MissingValue {
                key: key.to_string()
            }
        );
        assert_eq!(
            err.message(),
            format!("Cmdline option '{key}' must have an argument!")
        );
    }
}

#[test]
fn ensure_value_gives_the_value_or_names_the_key() {
    assert_eq!(ensure_value("k", Some("v")), Ok("v"));
    assert_eq!(
        ensure_value("k", None),
        Err(Error::MissingValue {
            key: "k".to_string()
        })
    );
}

#[test]
fn nfs_without_nfsroot_is_an_error() {
    let err = CmdlineOptions::new()
        .from_string("root=/dev/nfs\n", NO_TABLE)
        .expect_err("must fail");
    assert_eq!(err, Error::MissingNfsroot);
    assert_eq!(err.message(), "Missing nfsroot command-line option!");
}

#[test]
fn nfs_by_fstype_without_options() {
    let options = CmdlineOptions::new()
        .from_string("rootfstype=nfs nfsroot=10.0.0.1:/srv/root\n", NO_TABLE)
        .expect("failed");
    assert_eq!(options.root.as_deref(), Some("10.0.0.1:/srv/root"));
    assert_eq!(options.rootflags.as_deref(), Some("nolock,addr=10.0.0.1"));
    assert_eq!(options.rootfstype.as_deref(), Some("nfs"));
}

#[test]
fn nfs_server_from_the_network_table() {
    let table = "#PROTO: DHCP\ndomain example.org\nnameserver 10.0.0.53\nbootserver 10.0.0.7\nbootserver 10.0.0.8\n";
    let options = CmdlineOptions::new()
        .from_string("root=/dev/nfs nfsroot=/srv/root,v3\n", Ok(table))
        .expect("failed");
    assert_eq!(options.root.as_deref(), Some("10.0.0.7:/srv/root"));
    assert_eq!(options.rootflags.as_deref(), Some("nolock,v3,addr=10.0.0.7"));
    assert_eq!(options.rootfstype.as_deref(), Some("nfs"));
    assert_eq!(options.nfsroot.as_deref(), Some("/srv/root,v3"));
}

#[test]
fn nfs_server_line_ends_with_carriage_return() {
    let options = CmdlineOptions::new()
        .from_string(
            "root=/dev/nfs nfsroot=/srv/root\n",
            Ok("bootserver 10.0.0.7\r\nnameserver 1.1.1.1"),
        )
        .expect("failed");
    assert_eq!(options.root.as_deref(), Some("10.0.0.7:/srv/root"));
}

#[test]
fn nfs_table_without_server_leaves_the_address_empty() {
    let options = CmdlineOptions::new()
        .from_string(
            "root=/dev/nfs nfsroot=/srv/root,tcp\n",
            Ok("nameserver 10.0.0.53\nbootserver\n"),
        )
        .expect("failed");
    assert_eq!(options.root.as_deref(), Some("/srv/root"));
    assert_eq!(options.rootflags.as_deref(), Some("nolock,tcp,addr="));
}

#[test]
fn nfs_unreadable_table_is_an_error_only_when_needed() {
    let err = CmdlineOptions::new()
        .from_string("root=/dev/nfs nfsroot=/srv/root\n", Err("Failed to read /proc/net/pnp: gone"))
        .expect_err("must fail");
    assert_eq!(err.message(), "Failed to read /proc/net/pnp: gone");
}

#[test]
fn callbacks_see_only_keys_that_the_boot_does_not_read() {
    let seen = RefCell::new(Vec::new());
    let cb = |key: &str, value: Option<&str>| {
        seen.borrow_mut()
            .push((key.to_string(), value.map(str::to_string)));
        Result::<(), Error>::Ok(())
    };
    CmdlineOptions::new_with_callbacks(vec![cb])
        .from_string("root=/dev/a x.custom=value ro quiet init=/bin/sh\n", NO_TABLE)
        .expect("failed");
    assert_eq!(
        *seen.borrow(),
        vec![
            ("x.custom".to_string(), Some("value".to_string())),
            ("quiet".to_string(), None),
        ]
    );
}

#[test]
fn every_callback_is_offered_a_key_and_the_first_refusal_is_the_error() {
    let calls = RefCell::new(Vec::new());
    let make = |name: &'static str, refuse: bool| {
        let calls = &calls;
        Box::new(move |key: &str, _value: Option<&str>| {
            calls.borrow_mut().push(format!("{name}:{key}"));
            if refuse {
                Err(Error::failed(name))
            } else {
                Ok(())
            }
        }) as Box<dyn Fn(&str, Option<&str>) -> Result<(), Error>>
    };
    let err = CmdlineOptions::new_with_callbacks(vec![
        make("first", false),
        make("second", true),
        make("third", true),
    ])
    .from_string("a b\n", NO_TABLE)
    .expect_err("must fail");
    assert_eq!(err, Error::failed("second"));
    assert_eq!(*calls.borrow(), vec!["first:a", "second:a", "third:a"]);
}
