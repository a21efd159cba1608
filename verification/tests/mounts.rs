use rsinit::mount::{nfs_host_of, parse_bind, parse_nfs, MountArgs, MountFlags, MountOption, MS_BIND};
use rsinit::util::{Action, Error};

fn is_dotted(host: &str) -> bool {
    let parts: Vec<&str> = host.split('.').collect();
    parts.len() == 4 && parts.iter().all(|p| p.parse::<u8>().is_ok())
}

#[test]
fn test_bind_args() {
    let mut args = MountArgs::default();

    args.parse_cmdline("rsinit.bind", Some("/lib/modules,/root/lib/modules"), &is_dotted)
        .unwrap();

    assert_eq!(
        args.bind,
        &[MountOption {
            source: "/lib/modules".to_string(),
            destination: "/root/lib/modules".to_string(),
            options: String::new(),
        }]
    );
}

#[test]
fn test_nfs_args() {
    let mut args = MountArgs::default();

    args.parse_cmdline(
        "rsinit.nfs",
        Some("192.168.0.1:/path/lib/modules,/lib/modules"),
        &is_dotted,
    )
    .unwrap();

    assert_eq!(
        args.nfs[0],
        MountOption {
            source: "192.168.0.1:/path/lib/modules".to_string(),
            destination: "/lib/modules".to_string(),
            options: "addr=192.168.0.1,vers=3,proto=tcp,nolock".to_string(),
        }
    );
}

#[test]
fn other_keys_change_nothing() {
    let mut args = MountArgs::default();
    assert_eq!(args.parse_cmdline("quiet", None, &is_dotted), Ok(()));
    assert_eq!(args.parse_cmdline("rsinit.other", Some("a,b"), &is_dotted), Ok(()));
    assert_eq!(args, MountArgs::default());
    assert!(args.do_mounts().is_empty());
}

#[test]
fn mounts_need_a_value_in_their_form() {
    let mut args = MountArgs::default();
    for key in ["rsinit.bind", "rsinit.nfs"] {
        let err = args.parse_cmdline(key, None, &is_dotted).expect_err("must fail");
        assert_eq!(err.message(), format!("Cmdline option '{key}' must have an argument!"));
    }
    let err = args
        .parse_cmdline("rsinit.bind", Some("/only/source"), &is_dotted)
        .expect_err("must fail");
    assert_eq!(
        err,
        Error::BindFormat {
            value: "/only/source".to_string()
        }
    );
    assert_eq!(
        err.message(),
        "Bind mount option must be in the format '<source>,<destination>', got: /only/source"
    );
    let err = args
        .parse_cmdline("rsinit.nfs", Some("10.0.0.1:/only/source"), &is_dotted)
        .expect_err("must fail");
    assert_eq!(
        err.message(),
        "NFS mount option must be in the format '<host>:<source>,<destination>', got: 10.0.0.1:/only/source"
    );
    let err = args
        .parse_cmdline("rsinit.nfs", Some("/no/host,/dst"), &is_dotted)
        .expect_err("must fail");
    assert_eq!(err, Error::NfsSource);
    assert_eq!(err.message(), "NFS source must be in the format '<host>:<path>'");
    let err = args
        .parse_cmdline("rsinit.nfs", Some("server.example:/src,/dst"), &is_dotted)
        .expect_err("must fail");
    assert_eq!(err, Error::NfsHost);
    assert_eq!(
        err.message(),
        "NFS host must be a valid IP address as DNS lookup is not supported (yet)"
    );
    assert_eq!(args, MountArgs::default());
}

#[test]
fn the_host_is_asked_as_the_value_names_it() {
    let asked = std::cell::RefCell::new(Vec::new());
    let check = |host: &str| {
        asked.borrow_mut().push(host.to_string());
        true
    };
    let mut args = MountArgs::default();
    args.parse_cmdline("rsinit.nfs", Some("fe80::1:/src:x,/dst,more"), &check)
        .expect("failed");
    args.parse_cmdline("rsinit.nfs", Some(":/src,/dst"), &check).expect("failed");
    args.parse_cmdline("rsinit.bind", Some("a:b,c"), &check).expect("failed");
    let _ = args.parse_cmdline("rsinit.nfs", Some("nohost,/dst:x"), &check);
    assert_eq!(*asked.borrow(), vec!["fe80", ""]);
    assert_eq!(args.nfs[0].source, "fe80::1:/src:x");
    assert_eq!(args.nfs[0].destination, "/dst,more");
    assert_eq!(args.nfs[0].options, "addr=fe80,vers=3,proto=tcp,nolock");
    assert_eq!(args.nfs[1].options, "addr=,vers=3,proto=tcp,nolock");
    assert_eq!(nfs_host_of("h:/p,/d"), Some("h".to_string()));
    assert_eq!(nfs_host_of("h:/p"), None);
    assert_eq!(nfs_host_of("/p,h:/d"), None);
    assert_eq!(parse_nfs("h:/p,/d", false), Err(Error::NfsHost));
    assert_eq!(
        parse_bind(",").map(|m| (m.source, m.destination, m.options)),
        Ok((String::new(), String::new(), String::new()))
    );
}

#[test]
fn nfs_mounts_are_made_before_bind_mounts() {
    let mut args = MountArgs::default();
    for (key, value) in [
        ("rsinit.bind", "/a,/root/a"),
        ("rsinit.nfs", "10.0.0.1:/x,/root/x"),
        ("rsinit.bind", "/b,/root/b"),
        ("rsinit.nfs", "10.0.0.2:/y,/root/y"),
    ] {
        args.parse_cmdline(key, Some(value), &is_dotted).expect("failed");
    }
    let mkdir = |dir: &str| Action::Mkdir {
        dir: dir.to_string(),
    };
    let nfs = |source: &str, target: &str, host: &str| Action::Mount {
        source: Some(source.to_string()),
        target: target.to_string(),
        fstype: Some("nfs".to_string()),
        flags: MountFlags::empty(),
        data: Some(format!("addr={host},vers=3,proto=tcp,nolock")),
    };
    let bind = |source: &str, target: &str| Action::Mount {
        source: Some(source.to_string()),
        target: target.to_string(),
        fstype: None,
        flags: MountFlags::from_bits(MS_BIND),
        data: None,
    };
    assert_eq!(
        args.do_mounts(),
        vec![
            mkdir("/root/x"),
            nfs("10.0.0.1:/x", "/root/x", "10.0.0.1"),
            mkdir("/root/y"),
            nfs("10.0.0.2:/y", "/root/y", "10.0.0.2"),
            mkdir("/root/a"),
            bind("/a", "/root/a"),
            mkdir("/root/b"),
            bind("/b", "/root/b"),
        ]
    );
}
