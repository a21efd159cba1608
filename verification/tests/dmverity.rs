use rsinit::cmdline::CmdlineOptions;
use rsinit::dmverity::{
    create_message, init_header, plan_requests, prepare_dmverity, probe_dmverity, suspend_message,
    table_load_message, verified_device, verity_table, verity_uuid, ByteOrder, DmIoctl,
    DmTableLoad, DmTargetSpec, VerityParams, VerityStage, VerityStep, DM_DEV_CREATE_CMD,
    DM_DEV_SUSPEND_CMD, DM_IOCTL_SIZE, DM_TABLE_LOAD_CMD, DM_TABLE_LOAD_SIZE, DM_UUID_LEN,
};
use rsinit::util::{Action, Error, Event, NumberError};

const PARAMS: &str = "VERITY_DATA_BLOCKS=25600\nVERITY_DATA_SECTORS=204800\nVERITY_DATA_BLOCK_SIZE=4096\nVERITY_HASH_BLOCK_SIZE=4096\nVERITY_HASH_ALGORITHM=sha256\nVERITY_SALT=aabbcc\nVERITY_ROOT_HASH=0123456789abcdef\n";

const SEED: [u8; 16] = [
    0x00, 0x01, 0x0a, 0x0f, 0x10, 0x7f, 0x80, 0x9a, 0xab, 0xcd, 0xef, 0xff, 0x22, 0x33, 0x44, 0x55,
];

const SEED_HEX: &str = "00010a0f107f809aabcdefff22334455";

fn put(image: &mut [u8], at: usize, bytes: &[u8]) {
    image[at..at + bytes.len()].copy_from_slice(bytes);
}

fn u32_bytes(x: u32, order: ByteOrder) -> [u8; 4] {
    match order {
        ByteOrder::Little => x.to_le_bytes(),
        ByteOrder::Big => x.to_be_bytes(),
    }
}

fn u64_bytes(x: u64, order: ByteOrder) -> [u8; 8] {
    match order {
        ByteOrder::Little => x.to_le_bytes(),
        ByteOrder::Big => x.to_be_bytes(),
    }
}

fn header_image(size: u32, flags: u32, targets: u32, name: &[u8], uuid: &[u8], order: ByteOrder) -> Vec<u8> {
    let mut image = vec![0u8; 312];
    put(&mut image, 0, &u32_bytes(4, order));
    put(&mut image, 12, &u32_bytes(size, order));
    put(&mut image, 16, &u32_bytes(312, order));
    put(&mut image, 20, &u32_bytes(targets, order));
    put(&mut image, 28, &u32_bytes(flags, order));
    put(&mut image, 48, name);
    put(&mut image, 176, uuid);
    image
}

#[test]
fn a_header_takes_312_bytes_with_every_field_at_its_offset() {
    let mut name = [0u8; 128];
    name[0] = b'n';
    name[127] = b'N';
    let mut uuid = [0u8; 129];
    uuid[0] = b'u';
    uuid[128] = b'U';
    let header = DmIoctl {
        version: [0x01020304, 0x05060708, 0x090a0b0c],
        data_size: 0x11121314,
        data_start: 0x21222324,
        target_count: 0x31323334,
        open_count: 0x41424344,
        flags: 0x51525354,
        event_nr: 0x61626364,
        padding: 0x71727374,
        dev: 0x8182838485868788,
        name,
        uuid,
        data: [1, 2, 3, 4, 5, 6, 7],
    };
    let le = header.to_bytes(ByteOrder::Little);
    assert_eq!(le.len(), 312);
    assert_eq!(le[0..4], [4, 3, 2, 1]);
    assert_eq!(le[4..8], [8, 7, 6, 5]);
    assert_eq!(le[8..12], [0x0c, 0x0b, 0x0a, 0x09]);
    assert_eq!(le[12..16], [0x14, 0x13, 0x12, 0x11]);
    assert_eq!(le[16..20], [0x24, 0x23, 0x22, 0x21]);
    assert_eq!(le[20..24], [0x34, 0x33, 0x32, 0x31]);
    assert_eq!(le[24..28], [0x44, 0x43, 0x42, 0x41]);
    assert_eq!(le[28..32], [0x54, 0x53, 0x52, 0x51]);
    assert_eq!(le[32..36], [0x64, 0x63, 0x62, 0x61]);
    assert_eq!(le[36..40], [0x74, 0x73, 0x72, 0x71]);
    assert_eq!(le[40..48], [0x88, 0x87, 0x86, 0x85, 0x84, 0x83, 0x82, 0x81]);
    assert_eq!(le[48..176], name);
    assert_eq!(le[176..305], uuid);
    assert_eq!(le[305..312], [1, 2, 3, 4, 5, 6, 7]);
    let be = header.to_bytes(ByteOrder::Big);
    assert_eq!(be.len(), 312);
    assert_eq!(be[0..4], [1, 2, 3, 4]);
    assert_eq!(be[12..16], [0x11, 0x12, 0x13, 0x14]);
    assert_eq!(be[40..48], [0x81, 0x82, 0x83, 0x84, 0x85, 0x86, 0x87, 0x88]);
    assert_eq!(be[48..312], le[48..312]);
}

#[test]
fn a_table_load_message_takes_1376_bytes() {
    let mut message = DmTableLoad::default();
    assert_eq!(message.to_bytes(ByteOrder::Little), vec![0u8; 1376]);
    message.target_spec = DmTargetSpec {
        sector_start: 0x0102030405060708,
        length: 0x1112131415161718,
        status: 0x21222324,
        next: 0x31323334,
        target_type: *b"0123456789abcdef",
    };
    message.params[0] = b'p';
    message.params[1023] = b'P';
    let le = message.to_bytes(ByteOrder::Little);
    assert_eq!(le.len(), 1376);
    assert_eq!(le[0..312], [0u8; 312]);
    assert_eq!(le[312..320], [8, 7, 6, 5, 4, 3, 2, 1]);
    assert_eq!(le[320..328], [0x18, 0x17, 0x16, 0x15, 0x14, 0x13, 0x12, 0x11]);
    assert_eq!(le[328..332], [0x24, 0x23, 0x22, 0x21]);
    assert_eq!(le[332..336], [0x34, 0x33, 0x32, 0x31]);
    assert_eq!(le[336..352], *b"0123456789abcdef");
    assert_eq!(le[352], b'p');
    assert_eq!(le[1375], b'P');
    let be = message.to_bytes(ByteOrder::Big);
    assert_eq!(be[312..320], [1, 2, 3, 4, 5, 6, 7, 8]);
    assert_eq!(be[328..332], [0x21, 0x22, 0x23, 0x24]);
}

#[test]
fn defaults_are_all_zero() {
    let header = DmIoctl::default();
    assert_eq!(header.version, [0; 3]);
    assert_eq!(header.data_size, 0);
    assert_eq!(header.data_start, 0);
    assert_eq!(header.dev, 0);
    assert_eq!(header.name, [0; 128]);
    assert_eq!(header.uuid, [0; 129]);
    assert_eq!(header.data, [0; 7]);
    assert_eq!(header.to_bytes(ByteOrder::Big), vec![0u8; 312]);
    let spec = DmTargetSpec::default();
    assert_eq!((spec.sector_start, spec.length, spec.status, spec.next), (0, 0, 0, 0));
    assert_eq!(spec.target_type, [0; 16]);
    assert_eq!(DmTableLoad::default().params, [0; 1024]);
}

#[test]
fn init_header_sets_version_sizes_flags_and_uuid() {
    let mut header = DmIoctl::default();
    header.uuid = [b'x'; 129];
    header.target_count = 7;
    init_header(&mut header, 1376, 1, b"abc");
    assert_eq!(header.version, [4, 0, 0]);
    assert_eq!(header.data_size, 1376);
    assert_eq!(header.data_start, 312);
    assert_eq!(header.flags, 1);
    assert_eq!(header.target_count, 7);
    assert_eq!(&header.uuid[..3], b"abc");
    assert_eq!(header.uuid[3..], [b'x'; 126]);
    let longest = [b'u'; 128];
    init_header(&mut header, 312, 0, &longest);
    assert_eq!(header.uuid[..128], longest);
    assert_eq!(header.uuid[128], b'x');
    assert_eq!(header.data_size, 312);
    assert_eq!(header.flags, 0);

    let mut fresh = DmIoctl::default();
    init_header(&mut fresh, 312, 0, &longest);
    assert_eq!(fresh.uuid[..128], longest);
    assert_eq!(fresh.uuid[128], 0);
}

#[test]
fn the_uuid_is_prefix_seed_and_device_name() {
    let expected = format!("rsinit-verity-root-{SEED_HEX}-mmcblk0p1");
    assert_eq!(verity_uuid(&SEED, "/dev/mmcblk0p1"), expected.as_bytes());
    assert_eq!(verity_uuid(&SEED, "mmcblk0p1"), expected.as_bytes());
    assert_eq!(verity_uuid(&SEED, "/dev/disk/by-label/mmcblk0p1"), expected.as_bytes());
    let bare = format!("rsinit-verity-root-{SEED_HEX}-");
    assert_eq!(verity_uuid(&SEED, "/dev/"), bare.as_bytes());
    assert_eq!(verity_uuid(&SEED, ""), bare.as_bytes());
}

#[test]
fn the_uuid_is_cut_to_the_capacity_of_its_field() {
    let fixed = 19 + 32 + 1;
    let exact = "d".repeat(128 - fixed);
    let uuid = verity_uuid(&SEED, &format!("/dev/{exact}"));
    assert_eq!(uuid.len(), 128);
    assert_eq!(uuid, format!("rsinit-verity-root-{SEED_HEX}-{exact}").as_bytes());

    let over = "d".repeat(129 - fixed);
    let uuid = verity_uuid(&SEED, &format!("/dev/{over}"));
    assert_eq!(uuid.len(), 128);
    assert_eq!(uuid, format!("rsinit-verity-root-{SEED_HEX}-{exact}").as_bytes());

    let long = "x".repeat(5000);
    let uuid = verity_uuid(&SEED, &long);
    assert_eq!(uuid.len(), DM_UUID_LEN - 1);

    let under = "d".repeat(127 - fixed);
    assert_eq!(verity_uuid(&SEED, &under).len(), 127);

    let wide = format!("{}\u{e9}", "d".repeat(127 - fixed));
    let uuid = verity_uuid(&SEED, &wide);
    assert_eq!(uuid.len(), 128);
    assert_eq!(uuid[127], 0xc3);

    for uuid in [verity_uuid(&SEED, &format!("/dev/{exact}")), verity_uuid(&SEED, &long)] {
        let message = create_message(&uuid);
        assert_eq!(&message.uuid[..128], &uuid[..]);
        assert_eq!(message.uuid[128], 0);
    }
}

#[test]
fn the_create_message_names_the_device() {
    let uuid = verity_uuid(&SEED, "/dev/sda1");
    let message = create_message(&uuid);
    assert_eq!(message.data_size, DM_IOCTL_SIZE);
    assert_eq!(message.data_start, DM_IOCTL_SIZE);
    assert_eq!(message.version, [4, 0, 0]);
    for order in [ByteOrder::Little, ByteOrder::Big] {
        let image = message.to_bytes(order);
        assert_eq!(image.len() as u32, message.data_size);
        assert_eq!(image, header_image(312, 0, 0, b"verity-rootfs\0", &uuid, order));
    }
}

#[test]
fn the_suspend_message_has_no_name() {
    let uuid = verity_uuid(&SEED, "/dev/sda1");
    let message = suspend_message(&uuid);
    assert_eq!(message.data_size, DM_IOCTL_SIZE);
    assert_eq!(message.data_start, DM_IOCTL_SIZE);
    for order in [ByteOrder::Little, ByteOrder::Big] {
        assert_eq!(message.to_bytes(order), header_image(312, 0, 0, b"", &uuid, order));
    }
}

#[test]
fn parameters_are_read_from_lines() {
    let params = VerityParams::parse(PARAMS);
    assert_eq!(params.data_blocks, "25600");
    assert_eq!(params.data_sectors, "204800");
    assert_eq!(params.data_block_size, "4096");
    assert_eq!(params.hash_block_size, "4096");
    assert_eq!(params.hash_algorithm, "sha256");
    assert_eq!(params.salt, "aabbcc");
    assert_eq!(params.root_hash, "0123456789abcdef");
}

#[test]
fn the_last_line_of_a_key_wins_and_other_lines_say_nothing() {
    let params = VerityParams::parse(
        "# comment\nVERITY_SALT=one\r\nOTHER=x\nVERITY_SALT\nVERITY_SALT=two=three\n\nVERITY_ROOT_HASH=\nVERITY_DATA_BLOCKS =5\n VERITY_DATA_SECTORS=9\nVERITY_HASH_ALGORITHM=sha1",
    );
    assert_eq!(params.salt, "two=three");
    assert_eq!(params.root_hash, "");
    assert_eq!(params.data_blocks, "");
    assert_eq!(params.data_sectors, "");
    assert_eq!(params.hash_algorithm, "sha1");
    assert_eq!(
        VerityParams::parse(""),
        VerityParams {
            data_blocks: String::new(),
            data_sectors: String::new(),
            data_block_size: String::new(),
            hash_block_size: String::new(),
            hash_algorithm: String::new(),
            salt: String::new(),
            root_hash: String::new(),
        }
    );
}

const TABLE: &str =
    "1 /dev/sda1 /dev/sda1 4096 4096 25600 25600 sha256 0123456789abcdef aabbcc 1 ignore_zero_blocks";

#[test]
fn the_table_is_written_in_the_form_of_the_verity_target() {
    let params = VerityParams::parse(PARAMS);
    let table: String = verity_table(&params, "/dev/sda1").into_iter().collect();
    assert_eq!(table, TABLE);
}

fn load_image(uuid: &[u8], sectors: u64, table: &[u8], order: ByteOrder) -> Vec<u8> {
    let mut image = header_image(1376, 1, 1, b"", uuid, order);
    image.resize(1376, 0);
    put(&mut image, 320, &u64_bytes(sectors, order));
    put(&mut image, 336, b"verity\0");
    put(&mut image, 352, table);
    image
}

#[test]
fn the_table_load_message_carries_one_read_only_target() {
    let params = VerityParams::parse(PARAMS);
    let uuid = verity_uuid(&SEED, "/dev/sda1");
    let message = table_load_message(&uuid, &params, "/dev/sda1").expect("failed");
    assert_eq!(message.header.data_size, DM_TABLE_LOAD_SIZE);
    assert_eq!(message.header.data_start, DM_IOCTL_SIZE);
    assert_eq!(message.header.target_count, 1);
    assert_eq!(message.header.flags, 1);
    assert_eq!(message.target_spec.sector_start, 0);
    assert_eq!(message.target_spec.length, 204800);
    assert_eq!(&message.target_spec.target_type[..7], b"verity\0");
    assert_eq!(&message.params[..TABLE.len()], TABLE.as_bytes());
    assert_eq!(message.params[TABLE.len()..], [0u8; 1024][TABLE.len()..]);
    for order in [ByteOrder::Little, ByteOrder::Big] {
        let image = message.to_bytes(order);
        assert_eq!(image.len() as u32, message.header.data_size);
        assert_eq!(image, load_image(&uuid, 204800, TABLE.as_bytes(), order));
    }
}

#[test]
fn data_sectors_must_be_a_number() {
    let uuid = verity_uuid(&SEED, "/dev/sda1");
    for (text, reason) in [
        ("", NumberError::Empty),
        ("12k", NumberError::InvalidDigit),
        ("-1", NumberError::InvalidDigit),
        ("18446744073709551616", NumberError::Overflow),
    ] {
        let params = VerityParams::parse(&format!("VERITY_DATA_SECTORS={text}\n"));
        assert_eq!(
            table_load_message(&uuid, &params, "/dev/sda1"),
            Err(Error::DataSectors {
                text: text.to_string(),
                reason
            })
        );
    }
    let params = VerityParams::parse("VERITY_DATA_SECTORS=+18446744073709551615\n");
    let message = table_load_message(&uuid, &params, "/dev/sda1").expect("failed");
    assert_eq!(message.target_spec.length, u64::MAX);
}

#[test]
fn the_table_must_fit_its_area_with_its_nul_byte() {
    let uuid = verity_uuid(&SEED, "/dev/sda1");
    let empty = VerityParams::parse("VERITY_DATA_SECTORS=8\nVERITY_DATA_BLOCKS=0\n");
    let fixed = verity_table(&empty, "d").len();
    assert_eq!(fixed, "1 d d   0 0    1 ignore_zero_blocks".len());
    let fits = "s".repeat(1023 - fixed);
    let params = VerityParams::parse(&format!(
        "VERITY_DATA_SECTORS=8\nVERITY_DATA_BLOCKS=0\nVERITY_SALT={fits}\n"
    ));
    let message = table_load_message(&uuid, &params, "d").expect("failed");
    assert_ne!(message.params[1022], 0);
    assert_eq!(message.params[1023], 0);
    let table: String = verity_table(&params, "d").into_iter().collect();
    assert_eq!(table.len(), 1023);
    assert_eq!(&message.params[..1023], table.as_bytes());

    let params = VerityParams::parse(&format!(
        "VERITY_DATA_SECTORS=8\nVERITY_DATA_BLOCKS=0\nVERITY_SALT={fits}s\n"
    ));
    assert_eq!(table_load_message(&uuid, &params, "d"), Err(Error::TableTooLong));
    assert_eq!(
        plan_requests(&SEED, &format!("VERITY_DATA_SECTORS=8\nVERITY_SALT={}\n", "s".repeat(2000)), "d", ByteOrder::Little),
        Err(Error::TableTooLong)
    );
}

#[test]
fn the_three_requests_are_made_from_seed_parameters_and_device() {
    for order in [ByteOrder::Little, ByteOrder::Big] {
        let requests = plan_requests(&SEED, PARAMS, "/dev/sda1", order).expect("failed");
        let uuid = format!("rsinit-verity-root-{SEED_HEX}-sda1");
        assert_eq!(
            requests.create,
            header_image(312, 0, 0, b"verity-rootfs\0", uuid.as_bytes(), order)
        );
        assert_eq!(
            requests.load,
            load_image(uuid.as_bytes(), 204800, TABLE.as_bytes(), order)
        );
        assert_eq!(requests.suspend, header_image(312, 0, 0, b"", uuid.as_bytes(), order));
    }
}

fn reply(dev: u64, order: ByteOrder) -> Vec<u8> {
    let mut message = header_image(312, 0, 0, b"", b"", order);
    put(&mut message, 40, &u64_bytes(dev, order));
    message
}

#[test]
fn the_reply_names_the_device_by_its_minor_number() {
    for order in [ByteOrder::Little, ByteOrder::Big] {
        assert_eq!(
            verified_device(&reply((253 << 8) | 5, order), order),
            Ok("/dev/dm-5".to_string())
        );
        assert_eq!(verified_device(&reply(0, order), order), Ok("/dev/dm-0".to_string()));
        let wide = (0xabcde_u64 << 44) | (0x123 << 20) | (253 << 8) | 0x45;
        assert_eq!(
            verified_device(&reply(wide, order), order),
            Ok(format!("/dev/dm-{}", 0x12345))
        );
        let high = (0xabc_u64 << 32) | (0x123 << 20) | (253 << 8) | 0x45;
        assert_eq!(
            verified_device(&reply(high, order), order),
            Ok(format!("/dev/dm-{}", 0xabc12345u64))
        );
        assert_eq!(
            verified_device(&reply(u64::MAX, order), order),
            Ok(format!("/dev/dm-{}", 0xffff_ffffu64))
        );
        assert_eq!(verified_device(&reply(5, order)[..311], order), Err(Error::ShortReply));
        assert_eq!(verified_device(&[], order), Err(Error::ShortReply));
    }
}

fn options(root: Option<&str>, fstype: Option<&str>) -> CmdlineOptions {
    CmdlineOptions {
        root: root.map(str::to_string),
        rootfstype: fstype.map(str::to_string),
        ..Default::default()
    }
}

#[test]
fn verity_applies_to_a_local_root_with_parameters() {
    assert_eq!(
        probe_dmverity(),
        vec![Action::Probe {
            path: "/verity-params".to_string()
        }]
    );
    let probe = |present: bool, root: Option<&str>, fstype: Option<&str>| {
        let mut o = options(root, fstype);
        let step = prepare_dmverity(
            VerityStage::Probing,
            Event::Present { present },
            &mut o,
            ByteOrder::Little,
        );
        assert_eq!(o, options(root, fstype));
        step
    };
    assert_eq!(probe(false, Some("/dev/sda1"), None), Ok(VerityStep::NotApplicable));
    assert_eq!(probe(true, None, None), Ok(VerityStep::NotApplicable));
    assert_eq!(probe(true, Some("h:/p"), Some("nfs")), Ok(VerityStep::NotApplicable));
    assert_eq!(probe(true, Some("dev"), Some("9p")), Ok(VerityStep::NotApplicable));
    for fstype in [None, Some("ext4")] {
        assert_eq!(
            probe(true, Some("/dev/sda1"), fstype),
            Ok(VerityStep::Ask {
                actions: vec![
                    Action::WaitForDevice {
                        device: "/dev/sda1".to_string()
                    },
                    Action::ReadFile {
                        path: "/verity-params".to_string()
                    },
                ],
                stage: VerityStage::Reading,
            })
        );
    }
}

fn read_stage(order: ByteOrder) -> (Vec<u8>, Vec<u8>, Vec<u8>) {
    let mut o = options(Some("/dev/sda1"), None);
    let step = prepare_dmverity(
        VerityStage::Reading,
        Event::Text {
            text: PARAMS.to_string(),
        },
        &mut o,
        order,
    )
    .expect("failed");
    assert_eq!(o, options(Some("/dev/sda1"), None));
    match step {
        VerityStep::Ask { actions, stage } => {
            assert_eq!(actions.len(), 2);
            assert_eq!(actions[0], Action::OpenControl);
            let create = match &actions[1] {
                Action::Control { command, message } => {
                    assert_eq!(*command, DM_DEV_CREATE_CMD);
                    message.clone()
                }
                other => panic!("unexpected action {other:?}"),
            };
            match stage {
                VerityStage::Creating { load, suspend } => (create, load, suspend),
                other => panic!("unexpected stage {other:?}"),
            }
        }
        other => panic!("unexpected step {other:?}"),
    }
}

#[test]
fn the_requests_carry_a_random_uuid() {
    let (create, load, suspend) = read_stage(ByteOrder::Little);
    assert_eq!(create.len(), 312);
    assert_eq!(load.len(), 1376);
    assert_eq!(suspend.len(), 312);
    let uuid = &create[176..305];
    assert_eq!(&uuid[..19], b"rsinit-verity-root-");
    assert!(uuid[19..51]
        .iter()
        .all(|b| b.is_ascii_digit() || (b'a'..=b'f').contains(b)));
    assert_eq!(&uuid[51..56], b"-sda1");
    assert_eq!(uuid[56..], [0u8; 129][56..]);
    assert_eq!(&load[176..305], uuid);
    assert_eq!(&suspend[176..305], uuid);
    let seed: Vec<u8> = uuid[19..51]
        .chunks(2)
        .map(|pair| u8::from_str_radix(std::str::from_utf8(pair).unwrap(), 16).unwrap())
        .collect();
    let seed: [u8; 16] = seed.try_into().unwrap();
    assert_eq!(
        plan_requests(&seed, PARAMS, "/dev/sda1", ByteOrder::Little)
            .map(|r| (r.create, r.load, r.suspend)),
        Ok((create.clone(), load, suspend))
    );

    let (other, _, _) = read_stage(ByteOrder::Little);
    assert_ne!(create, other);
}

#[test]
fn the_requests_are_sent_one_after_the_other() {
    let order = ByteOrder::Big;
    let mut o = options(Some("/dev/sda1"), Some("ext4"));
    let ok = || Event::Reply {
        message: vec![0; 312],
    };
    let step = prepare_dmverity(
        VerityStage::Creating {
            load: vec![1, 2, 3],
            suspend: vec![4, 5],
        },
        ok(),
        &mut o,
        order,
    );
    assert_eq!(
        step,
        Ok(VerityStep::Ask {
            actions: vec![Action::Control {
                command: DM_TABLE_LOAD_CMD,
                message: vec![1, 2, 3]
            }],
            stage: VerityStage::Loading {
                suspend: vec![4, 5]
            },
        })
    );
    let step = prepare_dmverity(
        VerityStage::Loading {
            suspend: vec![4, 5],
        },
        ok(),
        &mut o,
        order,
    );
    assert_eq!(
        step,
        Ok(VerityStep::Ask {
            actions: vec![Action::Control {
                command: DM_DEV_SUSPEND_CMD,
                message: vec![4, 5]
            }],
            stage: VerityStage::Activating,
        })
    );
    assert_eq!(o, options(Some("/dev/sda1"), Some("ext4")));
    let step = prepare_dmverity(
        VerityStage::Activating,
        Event::Reply {
            message: reply((253 << 8) | 3, order),
        },
        &mut o,
        order,
    );
    assert_eq!(step, Ok(VerityStep::Handled));
    assert_eq!(o, options(Some("/dev/dm-3"), Some("ext4")));
}

#[test]
fn failures_and_unexpected_events_end_the_preparation() {
    let order = ByteOrder::Little;
    let stages = || {
        vec![
            VerityStage::Probing,
            VerityStage::Reading,
            VerityStage::Creating {
                load: vec![],
                suspend: vec![],
            },
            VerityStage::Loading { suspend: vec![] },
            VerityStage::Activating,
        ]
    };
    for stage in stages() {
        let mut o = options(Some("/dev/sda1"), None);
        assert_eq!(
            prepare_dmverity(
                stage,
                Event::Failed {
                    error: Error::failed("Failed to create dm device: EBUSY")
                },
                &mut o,
                order
            ),
            Err(Error::failed("Failed to create dm device: EBUSY"))
        );
        assert_eq!(o, options(Some("/dev/sda1"), None));
    }
    for stage in stages() {
        let mut o = options(Some("/dev/sda1"), None);
        assert_eq!(
            prepare_dmverity(stage, Event::Done, &mut o, order),
            Err(Error::OutOfOrder)
        );
    }
    let mut o = options(Some("/dev/sda1"), None);
    assert_eq!(
        prepare_dmverity(
            VerityStage::Probing,
            Event::Text {
                text: String::new()
            },
            &mut o,
            order
        ),
        Err(Error::OutOfOrder)
    );
    let mut o = options(None, None);
    assert_eq!(
        prepare_dmverity(
            VerityStage::Reading,
            Event::Text {
                text: PARAMS.to_string()
            },
            &mut o,
            order
        ),
        Err(Error::NoRoot)
    );
    let mut o = options(Some("/dev/sda1"), None);
    assert_eq!(
        prepare_dmverity(
            VerityStage::Reading,
            Event::Text {
                text: "VERITY_DATA_SECTORS=many\n".to_string()
            },
            &mut o,
            order
        ),
        Err(Error::DataSectors {
            text: "many".to_string(),
            reason: NumberError::InvalidDigit
        })
    );
    assert_eq!(
        prepare_dmverity(
            VerityStage::Activating,
            Event::Reply {
                message: vec![0; 100]
            },
            &mut o,
            order
        ),
        Err(Error::ShortReply)
    );
    assert_eq!(o, options(Some("/dev/sda1"), None));
}

#[test]
fn failed_control_calls_are_named() {
    let call = |command: u8| Action::Control {
        command,
        message: vec![],
    };
    assert_eq!(
        Action::OpenControl.failure("ENOENT").message(),
        "Failed to open /dev/mapper/control: ENOENT"
    );
    assert_eq!(
        call(DM_DEV_CREATE_CMD).failure("EBUSY").message(),
        "Failed to create dm device: EBUSY"
    );
    assert_eq!(
        call(DM_TABLE_LOAD_CMD).failure("EINVAL").message(),
        "Failed to load dm table: EINVAL"
    );
    assert_eq!(
        call(DM_DEV_SUSPEND_CMD).failure("ENXIO").message(),
        "Failed to suspend dm device: ENXIO"
    );
    assert_eq!(call(1).failure("EINVAL").message(), "EINVAL");
}
