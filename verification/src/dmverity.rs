//! Integrity verification of the root device by the device mapper: the
//! parameters of the verity target, the control messages in the layout that
//! the kernel reads, and the steps in which a verified device takes the place
//! of the root device.

use vstd::prelude::*;
use vstd::utf8::encode_utf8;
use crate::cmdline::CmdlineOptions;
use crate::cmdline::OptionsView;
use crate::mount::{is_network_fstype, is_network_type, plan_view};
use crate::text::{
    after_last, append_chars, append_hex, append_str, chars_of, copy_range, decimal_digits, find,
    find_last, hex_text, lines, number_value, parse_u64, same_chars, split_lines, split_once,
    string_of, to_decimal, utf8_bytes,
};
use crate::util::{Action, ActionView, Error, ErrorView, Event};

verus! {

/// The major version of the control interface that the messages are written for.
pub const DM_VERSION_MAJOR: u32 = 4;

/// The length of the field for a target type.
pub const DM_MAX_TYPE_NAME: usize = 16;

/// The length of the field for a device name.
pub const DM_NAME_LEN: usize = 128;

/// The length of the field for a device UUID.
pub const DM_UUID_LEN: usize = 129;

/// The length of the padding at the end of the header.
pub const DM_DATA_LEN: usize = 7;

/// The length of the area for the parameters of a target.
pub const DM_PARAMS_LEN: usize = 1024;

/// The flag for a device that is read-only.
pub const DM_READONLY_FLAG: u32 = 1;

/// The number of the control call that creates a device.
pub const DM_DEV_CREATE_CMD: u8 = 3;

/// The number of the control call that suspends or resumes a device.
pub const DM_DEV_SUSPEND_CMD: u8 = 6;

/// The number of the control call that loads a table.
pub const DM_TABLE_LOAD_CMD: u8 = 9;

/// The size of the header of a control message in bytes.
pub const DM_IOCTL_SIZE: u32 = 312;

/// The size of the description of one target in bytes.
pub const DM_TARGET_SPEC_SIZE: u32 = 40;

/// The size in bytes of the message that loads a table with one target.
pub const DM_TABLE_LOAD_SIZE: u32 = 1376;

/// The offset of the device number in the header of a control message.
pub const DM_DEV_OFFSET: usize = 40;

/// The order in which the bytes of a number stand in memory.
#[derive(Debug, Clone, Copy, PartialEq, Eq, Structural)]
pub enum ByteOrder {
    /// The least significant byte first.
    Little,
    /// The most significant byte first.
    Big,
}

/// The four bytes of `x`, the least significant first.
pub open spec fn le_bytes_u32(x: u32) -> Seq<u8> {
    seq![
        (x & 0xff) as u8,
        ((x >> 8) & 0xff) as u8,
        ((x >> 16) & 0xff) as u8,
        ((x >> 24) & 0xff) as u8,
    ]
}

/// The eight bytes of `x`, the least significant first.
pub open spec fn le_bytes_u64(x: u64) -> Seq<u8> {
    seq![
        (x & 0xff) as u8,
        ((x >> 8) & 0xff) as u8,
        ((x >> 16) & 0xff) as u8,
        ((x >> 24) & 0xff) as u8,
        ((x >> 32) & 0xff) as u8,
        ((x >> 40) & 0xff) as u8,
        ((x >> 48) & 0xff) as u8,
        ((x >> 56) & 0xff) as u8,
    ]
}

/// The bytes of `x` as they stand in memory.
pub open spec fn u32_image(x: u32, order: ByteOrder) -> Seq<u8> {
    match order {
        ByteOrder::Little => le_bytes_u32(x),
        ByteOrder::Big => le_bytes_u32(x).reverse(),
    }
}

/// The bytes of `x` as they stand in memory.
pub open spec fn u64_image(x: u64, order: ByteOrder) -> Seq<u8> {
    match order {
        ByteOrder::Little => le_bytes_u64(x),
        ByteOrder::Big => le_bytes_u64(x).reverse(),
    }
}

/// The number whose eight bytes, the least significant first, are `bytes`.
pub open spec fn u64_of_le_bytes(bytes: Seq<u8>) -> u64
    recommends
        bytes.len() == 8,
{
    (bytes[0] as u64) | (bytes[1] as u64) << 8 | (bytes[2] as u64) << 16 | (bytes[3] as u64) << 24
        | (bytes[4] as u64) << 32 | (bytes[5] as u64) << 40 | (bytes[6] as u64) << 48 | (
    bytes[7] as u64) << 56
}

/// The number that the eight bytes stand for in memory.
pub open spec fn u64_value(bytes: Seq<u8>, order: ByteOrder) -> u64
    recommends
        bytes.len() == 8,
{
    match order {
        ByteOrder::Little => u64_of_le_bytes(bytes),
        ByteOrder::Big => u64_of_le_bytes(bytes.reverse()),
    }
}

/// Reading the bytes of a number gives the number back.
pub proof fn lemma_u64_image_value(x: u64, order: ByteOrder)
    ensures
        u64_image(x, order).len() == 8,
        u64_value(u64_image(x, order), order) == x,
{
    let b = le_bytes_u64(x);
    assert(b.reverse().reverse() =~= b);
    assert(u64_of_le_bytes(b) == x) by {
        let b0 = (x & 0xff) as u8;
        let b1 = ((x >> 8) & 0xff) as u8;
        let b2 = ((x >> 16) & 0xff) as u8;
        let b3 = ((x >> 24) & 0xff) as u8;
        let b4 = ((x >> 32) & 0xff) as u8;
        let b5 = ((x >> 40) & 0xff) as u8;
        let b6 = ((x >> 48) & 0xff) as u8;
        let b7 = ((x >> 56) & 0xff) as u8;
        assert((b0 as u64) | (b1 as u64) << 8 | (b2 as u64) << 16 | (b3 as u64) << 24 | (b4 as u64)
            << 32 | (b5 as u64) << 40 | (b6 as u64) << 48 | (b7 as u64) << 56 == x)
            by (bit_vector)
            requires
                b0 == (x & 0xff) as u8,
                b1 == ((x >> 8) & 0xff) as u8,
                b2 == ((x >> 16) & 0xff) as u8,
                b3 == ((x >> 24) & 0xff) as u8,
                b4 == ((x >> 32) & 0xff) as u8,
                b5 == ((x >> 40) & 0xff) as u8,
                b6 == ((x >> 48) & 0xff) as u8,
                b7 == ((x >> 56) & 0xff) as u8,
        ;
    }
}

/// The lowest byte of a number.
fn low_byte(x: u64) -> (b: u8)
    ensures
        b == (x & 0xff) as u8,
{
    let low: u64 = x & 0xff;
    assert(low < 256) by (bit_vector)
        requires
            low == x & 0xff,
    ;
    low as u8
}

/// The eight bytes of a number, the least significant first.
fn bytes_of_u64(x: u64) -> (b: [u8; 8])
    ensures
        b@ == le_bytes_u64(x),
{
    let b = [
        low_byte(x),
        low_byte(x >> 8),
        low_byte(x >> 16),
        low_byte(x >> 24),
        low_byte(x >> 32),
        low_byte(x >> 40),
        low_byte(x >> 48),
        low_byte(x >> 56),
    ];
    assert(b@ =~= le_bytes_u64(x));
    b
}

/// The four bytes of a number, the least significant first.
fn bytes_of_u32(x: u32) -> (b: [u8; 4])
    ensures
        b@ == le_bytes_u32(x),
{
    let wide = x as u64;
    let b = [low_byte(wide), low_byte(wide >> 8), low_byte(wide >> 16), low_byte(wide >> 24)];
    proof {
        assert((wide & 0xff) as u8 == (x & 0xff) as u8 && ((wide >> 8) & 0xff) as u8 == ((x >> 8)
            & 0xff) as u8 && ((wide >> 16) & 0xff) as u8 == ((x >> 16) & 0xff) as u8 && ((wide
            >> 24) & 0xff) as u8 == ((x >> 24) & 0xff) as u8) by (bit_vector)
            requires
                wide == x as u64,
        ;
        assert(b@ =~= le_bytes_u32(x));
    }
    b
}

/// Appends the bytes of `bytes`, in their order or in the opposite one.
fn put_ordered(out: &mut Vec<u8>, bytes: &[u8], order: ByteOrder)
    ensures
        final(out)@ == old(out)@ + match order {
            ByteOrder::Little => bytes@,
            ByteOrder::Big => bytes@.reverse(),
        },
{
    let n = bytes.len();
    let mut i: usize = 0;
    while i < n
        invariant
            i <= n,
            n == bytes.len(),
            out@ == old(out)@ + match order {
                ByteOrder::Little => bytes@.take(i as int),
                ByteOrder::Big => bytes@.reverse().take(i as int),
            },
        decreases n - i,
    {
        let b = match order {
            ByteOrder::Little => bytes[i],
            ByteOrder::Big => bytes[n - 1 - i],
        };
        out.push(b);
        proof {
            match order {
                ByteOrder::Little => {
                    assert(bytes@.take(i + 1) =~= bytes@.take(i as int).push(b));
                },
                ByteOrder::Big => {
                    assert(bytes@.reverse().take(i + 1) =~= bytes@.reverse().take(i as int).push(
                        b,
                    ));
                },
            }
        }
        i += 1;
    }
    proof {
        assert(bytes@.take(n as int) =~= bytes@);
        assert(bytes@.reverse().take(n as int) =~= bytes@.reverse());
    }
}

/// Appends the bytes of `x` as they stand in memory.
pub fn put_u64(out: &mut Vec<u8>, x: u64, order: ByteOrder)
    ensures
        final(out)@ == old(out)@ + u64_image(x, order),
{
    let bytes = bytes_of_u64(x);
    put_ordered(out, bytes.as_slice(), order);
}

/// Appends the bytes of `x` as they stand in memory.
pub fn put_u32(out: &mut Vec<u8>, x: u32, order: ByteOrder)
    ensures
        final(out)@ == old(out)@ + u32_image(x, order),
{
    let bytes = bytes_of_u32(x);
    put_ordered(out, bytes.as_slice(), order);
}

/// Appends the bytes of `tail`.
pub fn put_bytes(out: &mut Vec<u8>, tail: &[u8])
    ensures
        final(out)@ == old(out)@ + tail@,
{
    let mut i: usize = 0;
    while i < tail.len()
        invariant
            i <= tail.len(),
            out@ == old(out)@ + tail@.take(i as int),
        decreases tail.len() - i,
    {
        out.push(tail[i]);
        i += 1;
    }
}

/// Reads the number that stands in the eight bytes from `at` on.
pub fn get_u64(bytes: &[u8], at: usize, order: ByteOrder) -> (x: u64)
    requires
        at + 8 <= bytes.len(),
    ensures
        x == u64_value(bytes@.subrange(at as int, at + 8), order),
{
    let ghost field = bytes@.subrange(at as int, at + 8);
    let (b0, b1, b2, b3, b4, b5, b6, b7) = match order {
        ByteOrder::Little => (
            bytes[at],
            bytes[at + 1],
            bytes[at + 2],
            bytes[at + 3],
            bytes[at + 4],
            bytes[at + 5],
            bytes[at + 6],
            bytes[at + 7],
        ),
        ByteOrder::Big => (
            bytes[at + 7],
            bytes[at + 6],
            bytes[at + 5],
            bytes[at + 4],
            bytes[at + 3],
            bytes[at + 2],
            bytes[at + 1],
            bytes[at],
        ),
    };
    proof {
        let read = match order {
            ByteOrder::Little => field,
            ByteOrder::Big => field.reverse(),
        };
        assert(read[0] == b0 && read[1] == b1 && read[2] == b2 && read[3] == b3);
        assert(read[4] == b4 && read[5] == b5 && read[6] == b6 && read[7] == b7);
    }
    (b0 as u64) | (b1 as u64) << 8 | (b2 as u64) << 16 | (b3 as u64) << 24 | (b4 as u64) << 32 | (
    b5 as u64) << 40 | (b6 as u64) << 48 | (b7 as u64) << 56
}

/// The header of every control message of the device mapper.
#[derive(Debug, Clone, Copy, PartialEq, Eq)]
pub struct DmIoctl {
    /// The version of the interface: major, minor, patch level.
    pub version: [u32; 3],
    /// The size of the whole message in bytes.
    pub data_size: u32,
    /// The offset at which what follows the header begins.
    pub data_start: u32,
    /// How many targets follow the header.
    pub target_count: u32,
    /// How many times the device is open.
    pub open_count: u32,
    /// Flags of the call and of the device.
    pub flags: u32,
    /// The number of the last event of the device.
    pub event_nr: u32,
    /// Not used.
    pub padding: u32,
    /// The number of the device.
    pub dev: u64,
    /// The name of the device, ended and padded by NUL.
    pub name: [u8; DM_NAME_LEN],
    /// The UUID of the device, ended and padded by NUL.
    pub uuid: [u8; DM_UUID_LEN],
    /// Padding up to a multiple of eight bytes.
    pub data: [u8; DM_DATA_LEN],
}

/// The description of one target of a table.
#[derive(Debug, Clone, Copy, PartialEq, Eq)]
pub struct DmTargetSpec {
    /// The first sector of the device that the target stands for.
    pub sector_start: u64,
    /// The number of sectors that the target stands for.
    pub length: u64,
    /// Set by the kernel.
    pub status: u32,
    /// The offset of the next target.
    pub next: u32,
    /// The type of the target, ended and padded by NUL.
    pub target_type: [u8; DM_MAX_TYPE_NAME],
}

/// The message that loads a table with one target.
#[derive(Debug, Clone, Copy, PartialEq, Eq)]
pub struct DmTableLoad {
    pub header: DmIoctl,
    pub target_spec: DmTargetSpec,
    /// The parameters of the target, ended and padded by NUL.
    pub params: [u8; DM_PARAMS_LEN],
}

/// `n` zero bytes.
pub open spec fn zeros(n: nat) -> Seq<u8> {
    Seq::new(n, |i: int| 0u8)
}

/// A field after `text` has been written over its beginning.
pub open spec fn overwritten(field: Seq<u8>, text: Seq<u8>) -> Seq<u8> {
    text + field.skip(text.len() as int)
}

impl DmIoctl {
    /// The header as it stands in memory: every number in the byte order of
    /// the machine, every field at the offset that the kernel reads it from.
    pub open spec fn image(&self, order: ByteOrder) -> Seq<u8> {
        u32_image(self.version[0], order) + u32_image(self.version[1], order) + u32_image(
            self.version[2],
            order,
        ) + u32_image(self.data_size, order) + u32_image(self.data_start, order) + u32_image(
            self.target_count,
            order,
        ) + u32_image(self.open_count, order) + u32_image(self.flags, order) + u32_image(
            self.event_nr,
            order,
        ) + u32_image(self.padding, order) + u64_image(self.dev, order) + self.name@ + self.uuid@
            + self.data@
    }

    /// The header with nothing filled in: every byte is zero.
    pub open spec fn is_zero(&self) -> bool {
        &&& self.version@ == seq![0u32, 0u32, 0u32]
        &&& self.data_size == 0
        &&& self.data_start == 0
        &&& self.target_count == 0
        &&& self.open_count == 0
        &&& self.flags == 0
        &&& self.event_nr == 0
        &&& self.padding == 0
        &&& self.dev == 0
        &&& self.name@ == zeros(DM_NAME_LEN as nat)
        &&& self.uuid@ == zeros(DM_UUID_LEN as nat)
        &&& self.data@ == zeros(DM_DATA_LEN as nat)
    }

    /// Writes the header as it stands in memory.
    pub fn encode(&self, out: &mut Vec<u8>, order: ByteOrder)
        ensures
            final(out)@ == old(out)@ + self.image(order),
    {
        put_u32(out, self.version[0], order);
        put_u32(out, self.version[1], order);
        put_u32(out, self.version[2], order);
        put_u32(out, self.data_size, order);
        put_u32(out, self.data_start, order);
        put_u32(out, self.target_count, order);
        put_u32(out, self.open_count, order);
        put_u32(out, self.flags, order);
        put_u32(out, self.event_nr, order);
        put_u32(out, self.padding, order);
        put_u64(out, self.dev, order);
        put_bytes(out, self.name.as_slice());
        put_bytes(out, self.uuid.as_slice());
        put_bytes(out, self.data.as_slice());
        assert(out@ =~= old(out)@ + self.image(order));
    }

    /// The message that consists of this header alone.
    pub fn to_bytes(&self, order: ByteOrder) -> (bytes: Vec<u8>)
        ensures
            bytes@ == self.image(order),
    {
        let mut bytes: Vec<u8> = Vec::new();
        self.encode(&mut bytes, order);
        bytes
    }
}

impl Default for DmIoctl {
    fn default() -> (header: DmIoctl)
        ensures
            header.is_zero(),
    {
        let header = DmIoctl {
            version: [0;3],
            data_size: 0,
            data_start: 0,
            target_count: 0,
            open_count: 0,
            flags: 0,
            event_nr: 0,
            padding: 0,
            dev: 0,
            name: [0;DM_NAME_LEN],
            uuid: [0;DM_UUID_LEN],
            data: [0;DM_DATA_LEN],
        };
        assert(header.version@ =~= seq![0u32, 0u32, 0u32]);
        assert(header.name@ =~= zeros(DM_NAME_LEN as nat));
        assert(header.uuid@ =~= zeros(DM_UUID_LEN as nat));
        assert(header.data@ =~= zeros(DM_DATA_LEN as nat));
        header
    }
}

impl DmTargetSpec {
    /// The description as it stands in memory.
    pub open spec fn image(&self, order: ByteOrder) -> Seq<u8> {
        u64_image(self.sector_start, order) + u64_image(self.length, order) + u32_image(
            self.status,
            order,
        ) + u32_image(self.next, order) + self.target_type@
    }

    /// The description with nothing filled in.
    pub open spec fn is_zero(&self) -> bool {
        &&& self.sector_start == 0
        &&& self.length == 0
        &&& self.status == 0
        &&& self.next == 0
        &&& self.target_type@ == zeros(DM_MAX_TYPE_NAME as nat)
    }

    /// Writes the description as it stands in memory.
    pub fn encode(&self, out: &mut Vec<u8>, order: ByteOrder)
        ensures
            final(out)@ == old(out)@ + self.image(order),
    {
        put_u64(out, self.sector_start, order);
        put_u64(out, self.length, order);
        put_u32(out, self.status, order);
        put_u32(out, self.next, order);
        put_bytes(out, self.target_type.as_slice());
        assert(out@ =~= old(out)@ + self.image(order));
    }
}

impl Default for DmTargetSpec {
    fn default() -> (spec: DmTargetSpec)
        ensures
            spec.is_zero(),
    {
        let spec = DmTargetSpec {
            sector_start: 0,
            length: 0,
            status: 0,
            next: 0,
            target_type: [0;DM_MAX_TYPE_NAME],
        };
        assert(spec.target_type@ =~= zeros(DM_MAX_TYPE_NAME as nat));
        spec
    }
}

impl DmTableLoad {
    /// The message as it stands in memory: the header, the target, the parameters.
    pub open spec fn image(&self, order: ByteOrder) -> Seq<u8> {
        self.header.image(order) + self.target_spec.image(order) + self.params@
    }

    /// The message with nothing filled in.
    pub open spec fn is_zero(&self) -> bool {
        &&& self.header.is_zero()
        &&& self.target_spec.is_zero()
        &&& self.params@ == zeros(DM_PARAMS_LEN as nat)
    }

    /// The message as it stands in memory.
    pub fn to_bytes(&self, order: ByteOrder) -> (bytes: Vec<u8>)
        ensures
            bytes@ == self.image(order),
    {
        let mut bytes: Vec<u8> = Vec::new();
        self.header.encode(&mut bytes, order);
        self.target_spec.encode(&mut bytes, order);
        put_bytes(&mut bytes, self.params.as_slice());
        assert(bytes@ =~= self.image(order));
        bytes
    }
}

impl Default for DmTableLoad {
    fn default() -> (message: DmTableLoad)
        ensures
            message.is_zero(),
    {
        let message = DmTableLoad {
            header: DmIoctl::default(),
            target_spec: DmTargetSpec::default(),
            params: [0;DM_PARAMS_LEN],
        };
        assert(message.params@ =~= zeros(DM_PARAMS_LEN as nat));
        message
    }
}

/// The sizes of the messages are those that the kernel expects, whatever the
/// fields hold and whatever the byte order: 312 bytes for a header, 40 for a
/// target, 1376 for the message that loads a table.
pub proof fn lemma_image_sizes(
    header: DmIoctl,
    target: DmTargetSpec,
    table: DmTableLoad,
    order: ByteOrder,
)
    ensures
        header.image(order).len() == DM_IOCTL_SIZE,
        target.image(order).len() == DM_TARGET_SPEC_SIZE,
        table.image(order).len() == DM_TABLE_LOAD_SIZE,
        header.image(order).subrange(DM_DEV_OFFSET as int, DM_DEV_OFFSET + 8) == u64_image(
            header.dev,
            order,
        ),
{
    assert(header.image(order).len() == 312);
    assert(table.header.image(order).len() == 312);
    assert(header.image(order).subrange(40, 48) =~= u64_image(header.dev, order));
}

/// Writes `text` over the beginning of a field.
pub fn copy_into<const N: usize>(field: &mut [u8; N], text: &[u8])
    requires
        text.len() <= N,
    ensures
        final(field)@ == overwritten(old(field)@, text@),
{
    let mut i: usize = 0;
    while i < text.len()
        invariant
            i <= text.len() <= N,
            field@ == overwritten(old(field)@, text@.take(i as int)),
        decreases text.len() - i,
    {
        field[i] = text[i];
        proof {
            assert(field@ =~= overwritten(old(field)@, text@.take(i + 1)));
        }
        i += 1;
    }
    proof {
        assert(text@.take(text.len() as int) =~= text@);
    }
}

/// Fills in what every control message needs: the version of the interface,
/// the size of the message, the offset of what follows the header, the flags
/// and the UUID of the device. The UUID is shorter than its field, so that
/// the last byte of the field stays as it is: in a fresh header, the NUL byte
/// that ends the UUID.
pub fn init_header(header: &mut DmIoctl, size: u32, flags: u32, uuid: &[u8])
    requires
        uuid.len() < DM_UUID_LEN,
    ensures
        *final(header) == (DmIoctl {
            version: final(header).version,
            data_size: size,
            data_start: DM_IOCTL_SIZE,
            flags,
            uuid: final(header).uuid,
            ..*old(header)
        }),
        final(header).version@ == old(header).version@.update(0, DM_VERSION_MAJOR),
        final(header).uuid@ == overwritten(old(header).uuid@, uuid@),
        final(header).uuid@[DM_UUID_LEN - 1] == old(header).uuid@[DM_UUID_LEN - 1],
{
    header.version[0] = DM_VERSION_MAJOR;
    header.data_size = size;
    header.data_start = DM_IOCTL_SIZE;
    header.flags = flags;
    copy_into(&mut header.uuid, uuid);
}

/// The parameters of the verity target, as the file of parameters gives them.
/// What the file does not give is empty.
#[derive(Debug, PartialEq, Eq)]
pub struct VerityParams {
    /// The number of data blocks (`VERITY_DATA_BLOCKS`).
    pub data_blocks: String,
    /// The number of sectors of 512 bytes that the data takes (`VERITY_DATA_SECTORS`).
    pub data_sectors: String,
    /// The size of a data block in bytes (`VERITY_DATA_BLOCK_SIZE`).
    pub data_block_size: String,
    /// The size of a hash block in bytes (`VERITY_HASH_BLOCK_SIZE`).
    pub hash_block_size: String,
    /// The name of the hash algorithm (`VERITY_HASH_ALGORITHM`).
    pub hash_algorithm: String,
    /// The salt in hexadecimal digits (`VERITY_SALT`).
    pub salt: String,
    /// The hash of the root block in hexadecimal digits (`VERITY_ROOT_HASH`).
    pub root_hash: String,
}

/// `VerityParams` with its texts as sequences of characters.
pub struct VerityParamsView {
    pub data_blocks: Seq<char>,
    pub data_sectors: Seq<char>,
    pub data_block_size: Seq<char>,
    pub hash_block_size: Seq<char>,
    pub hash_algorithm: Seq<char>,
    pub salt: Seq<char>,
    pub root_hash: Seq<char>,
}

impl DeepView for VerityParams {
    type V = VerityParamsView;

    open spec fn deep_view(&self) -> VerityParamsView {
        VerityParamsView {
            data_blocks: self.data_blocks@,
            data_sectors: self.data_sectors@,
            data_block_size: self.data_block_size@,
            hash_block_size: self.hash_block_size@,
            hash_algorithm: self.hash_algorithm@,
            salt: self.salt@,
            root_hash: self.root_hash@,
        }
    }
}

impl View for VerityParams {
    type V = VerityParamsView;

    open spec fn view(&self) -> VerityParamsView {
        self.deep_view()
    }
}

/// What the lines `KEY=VALUE` give for the key `name`: the value of the last
/// line with this key, and the empty text where no line has it. The first `=`
/// of a line ends the key; a line without `=` says nothing.
pub open spec fn setting(rows: Seq<Seq<char>>, name: Seq<char>) -> Seq<char>
    decreases rows.len(),
{
    if rows.len() == 0 {
        Seq::empty()
    } else {
        match split_once(rows.last(), '=') {
            Some((key, value)) => if key == name {
                value
            } else {
                setting(rows.drop_last(), name)
            },
            None => setting(rows.drop_last(), name),
        }
    }
}

/// The parameters that the text of a file of parameters gives.
pub open spec fn verity_params(text: Seq<char>) -> VerityParamsView {
    let rows = lines(text);
    VerityParamsView {
        data_blocks: setting(rows, "VERITY_DATA_BLOCKS"@),
        data_sectors: setting(rows, "VERITY_DATA_SECTORS"@),
        data_block_size: setting(rows, "VERITY_DATA_BLOCK_SIZE"@),
        hash_block_size: setting(rows, "VERITY_HASH_BLOCK_SIZE"@),
        hash_algorithm: setting(rows, "VERITY_HASH_ALGORITHM"@),
        salt: setting(rows, "VERITY_SALT"@),
        root_hash: setting(rows, "VERITY_ROOT_HASH"@),
    }
}

/// Takes the value of the line for `field` if the key of the line is `name`.
fn take_setting(field: &mut Vec<char>, key: &[char], value: &[char], name: &str)
    ensures
        final(field)@ == if key@ == name@ {
            value@
        } else {
            old(field)@
        },
{
    let wanted = chars_of(name);
    if same_chars(key, wanted.as_slice()) {
        *field = copy_range(value, 0, value.len());
        proof {
            assert(value@.subrange(0, value.len() as int) == value@);
        }
    }
}

impl VerityParams {
    /// Reads the parameters from the text of a file of parameters.
    pub fn parse(text: &str) -> (params: VerityParams)
        ensures
            params@ == verity_params(text@),
    {
        let chars = chars_of(text);
        let rows = split_lines(chars.as_slice());
        let mut data_blocks: Vec<char> = Vec::new();
        let mut data_sectors: Vec<char> = Vec::new();
        let mut data_block_size: Vec<char> = Vec::new();
        let mut hash_block_size: Vec<char> = Vec::new();
        let mut hash_algorithm: Vec<char> = Vec::new();
        let mut salt: Vec<char> = Vec::new();
        let mut root_hash: Vec<char> = Vec::new();
        let mut i: usize = 0;
        while i < rows.len()
            invariant
                i <= rows.len(),
                data_blocks@ == setting(rows.deep_view().take(i as int), "VERITY_DATA_BLOCKS"@),
                data_sectors@ == setting(rows.deep_view().take(i as int), "VERITY_DATA_SECTORS"@),
                data_block_size@ == setting(
                    rows.deep_view().take(i as int),
                    "VERITY_DATA_BLOCK_SIZE"@,
                ),
                hash_block_size@ == setting(
                    rows.deep_view().take(i as int),
                    "VERITY_HASH_BLOCK_SIZE"@,
                ),
                hash_algorithm@ == setting(
                    rows.deep_view().take(i as int),
                    "VERITY_HASH_ALGORITHM"@,
                ),
                salt@ == setting(rows.deep_view().take(i as int), "VERITY_SALT"@),
                root_hash@ == setting(rows.deep_view().take(i as int), "VERITY_ROOT_HASH"@),
            decreases rows.len() - i,
        {
            let row = rows[i].as_slice();
            proof {
                let read = rows.deep_view().take(i + 1);
                assert(read.drop_last() == rows.deep_view().take(i as int));
                assert(read.last() == row@) by {
                    assert(rows@[i as int].deep_view() =~= rows@[i as int]@);
                }
            }
            match find(row, '=') {
                Some(eq) => {
                    proof {
                        assert(row@.take(eq as int) == row@.subrange(0, eq as int));
                        assert(row@.skip(eq + 1) == row@.subrange(eq + 1, row.len() as int));
                    }
                    let key = copy_range(row, 0, eq);
                    let value = copy_range(row, eq + 1, row.len());
                    let k = key.as_slice();
                    let v = value.as_slice();
                    take_setting(&mut data_blocks, k, v, "VERITY_DATA_BLOCKS");
                    take_setting(&mut data_sectors, k, v, "VERITY_DATA_SECTORS");
                    take_setting(&mut data_block_size, k, v, "VERITY_DATA_BLOCK_SIZE");
                    take_setting(&mut hash_block_size, k, v, "VERITY_HASH_BLOCK_SIZE");
                    take_setting(&mut hash_algorithm, k, v, "VERITY_HASH_ALGORITHM");
                    take_setting(&mut salt, k, v, "VERITY_SALT");
                    take_setting(&mut root_hash, k, v, "VERITY_ROOT_HASH");
                },
                None => {},
            }
            i += 1;
        }
        proof {
            assert(rows.deep_view().take(i as int) == rows.deep_view());
        }
        VerityParams {
            data_blocks: string_of(data_blocks.as_slice()),
            data_sectors: string_of(data_sectors.as_slice()),
            data_block_size: string_of(data_block_size.as_slice()),
            hash_block_size: string_of(hash_block_size.as_slice()),
            hash_algorithm: string_of(hash_algorithm.as_slice()),
            salt: string_of(salt.as_slice()),
            root_hash: string_of(root_hash.as_slice()),
        }
    }
}

/// The file that holds the parameters of the verity target.
pub const VERITY_PARAMS_PATH: &'static str = "/verity-params";

/// The name under which the verified device is created.
pub const VERITY_NAME: &'static str = "verity-rootfs";

/// The type of the target that verifies.
pub const VERITY_TARGET: &'static str = "verity";

/// What the UUID of the verified device begins with.
pub const VERITY_UUID_PREFIX: &'static str = "rsinit-verity-root-";

/// The bytes of a text in UTF-8 with the NUL byte that ends it.
pub open spec fn terminated(text: Seq<char>) -> Seq<u8> {
    encode_utf8(text).push(0u8)
}

/// A field of `n` bytes that begins with `text` and is zero behind it.
pub open spec fn padded(text: Seq<u8>, n: nat) -> Seq<u8> {
    overwritten(zeros(n), text)
}

/// The first `max` of the bytes, or all of them where they are not more.
pub open spec fn truncated(bytes: Seq<u8>, max: nat) -> Seq<u8> {
    if bytes.len() > max {
        bytes.take(max as int)
    } else {
        bytes
    }
}

/// The UUID of the verified device as a text: the prefix, the random seed in
/// hexadecimal digits, a hyphen, and the name of the root device without the
/// directories before it.
pub open spec fn uuid_text(seed: Seq<u8>, root_device: Seq<char>) -> Seq<char> {
    VERITY_UUID_PREFIX@ + hex_text(seed) + "-"@ + after_last(root_device, '/')
}

/// The UUID of the verified device: its text in UTF-8, cut to the length that
/// leaves room for the NUL byte at the end of the field.
pub open spec fn uuid_bytes(seed: Seq<u8>, root_device: Seq<char>) -> Seq<u8> {
    truncated(encode_utf8(uuid_text(seed, root_device)), (DM_UUID_LEN - 1) as nat)
}

/// The table of the verity target: version 1, the root device for data and
/// for hashes, the block sizes, the number of data blocks as the size of the
/// data and as the place where the hashes begin, the algorithm, the hash of
/// the root block, the salt, and the one option `ignore_zero_blocks`.
pub open spec fn table_text(params: VerityParamsView, root_device: Seq<char>) -> Seq<char> {
    "1 "@ + root_device + " "@ + root_device + " "@ + params.data_block_size + " "@
        + params.hash_block_size + " "@ + params.data_blocks + " "@ + params.data_blocks + " "@
        + params.hash_algorithm + " "@ + params.root_hash + " "@ + params.salt
        + " 1 ignore_zero_blocks"@
}

/// What every request holds: the version of the interface, its own size, the
/// size of the header as the offset of what follows, the flags, the UUID, and
/// zero in what the kernel fills in.
pub open spec fn is_request(header: DmIoctl, size: u32, flags: u32, uuid: Seq<u8>) -> bool {
    &&& header.version@ == seq![DM_VERSION_MAJOR, 0u32, 0u32]
    &&& header.data_size == size
    &&& header.data_start == DM_IOCTL_SIZE
    &&& header.open_count == 0
    &&& header.flags == flags
    &&& header.event_nr == 0
    &&& header.padding == 0
    &&& header.dev == 0
    &&& header.uuid@ == padded(uuid, DM_UUID_LEN as nat)
    &&& header.data@ == zeros(DM_DATA_LEN as nat)
}

/// The request that creates the verified device with the given UUID.
pub open spec fn is_create_message(message: DmIoctl, uuid: Seq<u8>) -> bool {
    &&& is_request(message, DM_IOCTL_SIZE, 0, uuid)
    &&& message.target_count == 0
    &&& message.name@ == padded(terminated(VERITY_NAME@), DM_NAME_LEN as nat)
}

/// The request that brings the device with the given UUID into service.
pub open spec fn is_suspend_message(message: DmIoctl, uuid: Seq<u8>) -> bool {
    &&& is_request(message, DM_IOCTL_SIZE, 0, uuid)
    &&& message.target_count == 0
    &&& message.name@ == zeros(DM_NAME_LEN as nat)
}

/// The request that loads the verity table into the device with the given
/// UUID: read-only, with one target that begins at sector 0 and is `sectors`
/// long.
pub open spec fn is_table_load_message(
    message: DmTableLoad,
    uuid: Seq<u8>,
    sectors: u64,
    table: Seq<char>,
) -> bool {
    &&& is_request(message.header, DM_TABLE_LOAD_SIZE, DM_READONLY_FLAG, uuid)
    &&& message.header.target_count == 1
    &&& message.header.name@ == zeros(DM_NAME_LEN as nat)
    &&& message.target_spec.sector_start == 0
    &&& message.target_spec.length == sectors
    &&& message.target_spec.status == 0
    &&& message.target_spec.next == 0
    &&& message.target_spec.target_type@ == padded(
        terminated(VERITY_TARGET@),
        DM_MAX_TYPE_NAME as nat,
    )
    &&& message.params@ == padded(terminated(table), DM_PARAMS_LEN as nat)
}

/// In every request, the offset of what follows the header is the size of the
/// header, and the size that the header states is the size of what is sent.
pub proof fn lemma_sizes_stated(
    create: DmIoctl,
    load: DmTableLoad,
    suspend: DmIoctl,
    uuid: Seq<u8>,
    sectors: u64,
    table: Seq<char>,
    order: ByteOrder,
)
    requires
        is_create_message(create, uuid),
        is_table_load_message(load, uuid, sectors, table),
        is_suspend_message(suspend, uuid),
    ensures
        create.data_start == DM_IOCTL_SIZE,
        create.data_size == create.image(order).len(),
        load.header.data_start == load.header.image(order).len(),
        load.header.data_size == load.image(order).len(),
        suspend.data_start == DM_IOCTL_SIZE,
        suspend.data_size == suspend.image(order).len(),
{
    lemma_image_sizes(create, load.target_spec, load, order);
    lemma_image_sizes(suspend, load.target_spec, load, order);
    lemma_image_sizes(load.header, load.target_spec, load, order);
}

/// The texts in a request end with a NUL byte inside their fields: a UUID
/// that is shorter than its field leaves the last byte of the field zero, and
/// so do the name of the device and the type of the target.
pub proof fn lemma_fields_terminated(
    create: DmIoctl,
    load: DmTableLoad,
    uuid: Seq<u8>,
    sectors: u64,
    table: Seq<char>,
)
    requires
        uuid.len() < DM_UUID_LEN,
        is_create_message(create, uuid),
        is_table_load_message(load, uuid, sectors, table),
        terminated(table).len() <= DM_PARAMS_LEN,
    ensures
        create.uuid@[DM_UUID_LEN - 1] == 0,
        create.name@[DM_NAME_LEN - 1] == 0,
        load.header.uuid@[DM_UUID_LEN - 1] == 0,
        load.target_spec.target_type@[DM_MAX_TYPE_NAME - 1] == 0,
        load.params@[DM_PARAMS_LEN - 1] == 0,
{
    lemma_names_fit();
    assert(terminated(table).last() == 0);
}

/// The names that the requests carry fit their fields together with the NUL
/// byte that ends them.
pub proof fn lemma_names_fit()
    ensures
        terminated(VERITY_NAME@).len() == 14,
        terminated(VERITY_TARGET@).len() == 7,
{
    reveal_strlit("verity-rootfs");
    reveal_strlit("verity");
    assert(vstd::utf8::is_ascii_chars(VERITY_NAME@));
    assert(vstd::utf8::is_ascii_chars(VERITY_TARGET@));
    vstd::utf8::is_ascii_chars_encode_utf8(VERITY_NAME@);
    vstd::utf8::is_ascii_chars_encode_utf8(VERITY_TARGET@);
}

/// The bytes of a text in UTF-8 with the NUL byte that ends it.
fn terminated_bytes(text: &[char]) -> (bytes: Vec<u8>)
    ensures
        bytes@ == terminated(text@),
{
    let mut bytes = utf8_bytes(text);
    bytes.push(0);
    bytes
}

/// Makes the UUID of the verified device from a random seed and the root device.
pub fn verity_uuid(seed: &[u8; 16], root_device: &str) -> (uuid: Vec<u8>)
    ensures
        uuid@ == uuid_bytes(seed@, root_device@),
        uuid.len() < DM_UUID_LEN,
{
    let device = chars_of(root_device);
    let mut text: Vec<char> = Vec::new();
    append_str(&mut text, VERITY_UUID_PREFIX);
    append_hex(&mut text, seed.as_slice());
    append_str(&mut text, "-");
    match find_last(device.as_slice(), '/') {
        Some(slash) => {
            let name = copy_range(device.as_slice(), slash + 1, device.len());
            proof {
                assert(device@.skip(slash + 1) == device@.subrange(
                    slash + 1,
                    device.len() as int,
                ));
            }
            append_chars(&mut text, name.as_slice());
        },
        None => {
            append_chars(&mut text, device.as_slice());
        },
    }
    let mut uuid = utf8_bytes(text.as_slice());
    if uuid.len() > DM_UUID_LEN - 1 {
        uuid.truncate(DM_UUID_LEN - 1);
        proof {
            let all = encode_utf8(text@);
            assert(uuid@ =~= all.take((DM_UUID_LEN - 1) as int));
        }
    }
    uuid
}

/// The request that creates the verified device.
pub fn create_message(uuid: &[u8]) -> (message: DmIoctl)
    requires
        uuid.len() < DM_UUID_LEN,
    ensures
        is_create_message(message, uuid@),
{
    let mut message = DmIoctl::default();
    init_header(&mut message, DM_IOCTL_SIZE, 0, uuid);
    let name = terminated_bytes(chars_of(VERITY_NAME).as_slice());
    proof {
        lemma_names_fit();
    }
    copy_into(&mut message.name, name.as_slice());
    proof {
        assert(message.version@ =~= seq![DM_VERSION_MAJOR, 0u32, 0u32]);
    }
    message
}

/// The request that brings the verified device into service.
pub fn suspend_message(uuid: &[u8]) -> (message: DmIoctl)
    requires
        uuid.len() < DM_UUID_LEN,
    ensures
        is_suspend_message(message, uuid@),
{
    let mut message = DmIoctl::default();
    init_header(&mut message, DM_IOCTL_SIZE, 0, uuid);
    proof {
        assert(message.version@ =~= seq![DM_VERSION_MAJOR, 0u32, 0u32]);
    }
    message
}

/// Writes the table of the verity target.
pub fn verity_table(params: &VerityParams, root_device: &str) -> (table: Vec<char>)
    ensures
        table@ == table_text(params@, root_device@),
{
    let mut table: Vec<char> = Vec::new();
    append_str(&mut table, "1 ");
    append_str(&mut table, root_device);
    append_str(&mut table, " ");
    append_str(&mut table, root_device);
    append_str(&mut table, " ");
    append_str(&mut table, params.data_block_size.as_str());
    append_str(&mut table, " ");
    append_str(&mut table, params.hash_block_size.as_str());
    append_str(&mut table, " ");
    append_str(&mut table, params.data_blocks.as_str());
    append_str(&mut table, " ");
    append_str(&mut table, params.data_blocks.as_str());
    append_str(&mut table, " ");
    append_str(&mut table, params.hash_algorithm.as_str());
    append_str(&mut table, " ");
    append_str(&mut table, params.root_hash.as_str());
    append_str(&mut table, " ");
    append_str(&mut table, params.salt.as_str());
    append_str(&mut table, " 1 ignore_zero_blocks");
    assert(table@ =~= table_text(params@, root_device@));
    table
}

/// The request that loads the verity table, or the reason why there is none:
/// the number of data sectors is no number, or the table with its NUL byte is
/// longer than the area for the parameters.
pub open spec fn table_load_outcome(
    message: Result<DmTableLoad, Error>,
    uuid: Seq<u8>,
    params: VerityParamsView,
    root_device: Seq<char>,
) -> bool {
    match number_value(params.data_sectors) {
        Err(reason) => message matches Err(e) && e@ == (ErrorView::DataSectors {
            text: params.data_sectors,
            reason,
        }),
        Ok(sectors) => if terminated(table_text(params, root_device)).len() > DM_PARAMS_LEN {
            message matches Err(e) && e@ == ErrorView::TableTooLong
        } else {
            message matches Ok(m) && is_table_load_message(
                m,
                uuid,
                sectors as u64,
                table_text(params, root_device),
            )
        },
    }
}

/// The request that loads the verity table.
pub fn table_load_message(uuid: &[u8], params: &VerityParams, root_device: &str) -> (message:
    Result<DmTableLoad, Error>)
    requires
        uuid.len() < DM_UUID_LEN,
    ensures
        table_load_outcome(message, uuid@, params@, root_device@),
{
    let mut message = DmTableLoad::default();
    init_header(&mut message.header, DM_TABLE_LOAD_SIZE, DM_READONLY_FLAG, uuid);
    message.header.target_count = 1;
    let sectors = chars_of(params.data_sectors.as_str());
    message.target_spec.length = match parse_u64(sectors.as_slice()) {
        Ok(n) => n,
        Err(reason) => {
            return Err(Error::DataSectors { text: params.data_sectors.clone(), reason });
        },
    };
    let target = terminated_bytes(chars_of(VERITY_TARGET).as_slice());
    proof {
        lemma_names_fit();
    }
    copy_into(&mut message.target_spec.target_type, target.as_slice());
    let table = verity_table(params, root_device);
    let bytes = terminated_bytes(table.as_slice());
    if bytes.len() > DM_PARAMS_LEN {
        return Err(Error::TableTooLong);
    }
    copy_into(&mut message.params, bytes.as_slice());
    proof {
        assert(message.header.version@ =~= seq![DM_VERSION_MAJOR, 0u32, 0u32]);
    }
    Ok(message)
}

/// A request as it stands in memory: the header with the version of the
/// interface, the size of the message, the size of the header, the number of
/// targets, the flags, the name and the UUID of the device, and zero in
/// every other place.
pub open spec fn request_image(
    size: u32,
    flags: u32,
    target_count: u32,
    name: Seq<u8>,
    uuid: Seq<u8>,
    order: ByteOrder,
) -> Seq<u8> {
    u32_image(DM_VERSION_MAJOR, order) + u32_image(0, order) + u32_image(0, order) + u32_image(
        size,
        order,
    ) + u32_image(DM_IOCTL_SIZE, order) + u32_image(target_count, order) + u32_image(0, order)
        + u32_image(flags, order) + u32_image(0, order) + u32_image(0, order) + u64_image(
        0,
        order,
    ) + padded(name, DM_NAME_LEN as nat) + padded(uuid, DM_UUID_LEN as nat) + zeros(
        DM_DATA_LEN as nat,
    )
}

/// The bytes of the request that creates the verified device.
pub open spec fn create_image(uuid: Seq<u8>, order: ByteOrder) -> Seq<u8> {
    request_image(DM_IOCTL_SIZE, 0, 0, terminated(VERITY_NAME@), uuid, order)
}

/// The bytes of the request that brings the verified device into service.
pub open spec fn suspend_image(uuid: Seq<u8>, order: ByteOrder) -> Seq<u8> {
    request_image(DM_IOCTL_SIZE, 0, 0, Seq::empty(), uuid, order)
}

/// The bytes of the request that loads the verity table: the header, then the
/// one target from sector 0 over `sectors` sectors, then the table.
pub open spec fn table_load_image(uuid: Seq<u8>, sectors: u64, table: Seq<char>, order: ByteOrder)
    -> Seq<u8> {
    request_image(DM_TABLE_LOAD_SIZE, DM_READONLY_FLAG, 1, Seq::empty(), uuid, order) + u64_image(
        0,
        order,
    ) + u64_image(sectors, order) + u32_image(0, order) + u32_image(0, order) + padded(
        terminated(VERITY_TARGET@),
        DM_MAX_TYPE_NAME as nat,
    ) + padded(terminated(table), DM_PARAMS_LEN as nat)
}

/// The images of the requests are those that their fields give.
pub proof fn lemma_request_images(
    create: DmIoctl,
    load: DmTableLoad,
    suspend: DmIoctl,
    uuid: Seq<u8>,
    sectors: u64,
    table: Seq<char>,
    order: ByteOrder,
)
    ensures
        is_create_message(create, uuid) ==> create.image(order) == create_image(uuid, order),
        is_table_load_message(load, uuid, sectors, table) ==> load.image(order)
            == table_load_image(uuid, sectors, table, order),
        is_suspend_message(suspend, uuid) ==> suspend.image(order) == suspend_image(uuid, order),
{
    assert(padded(Seq::<u8>::empty(), DM_NAME_LEN as nat) =~= zeros(DM_NAME_LEN as nat));
    if is_create_message(create, uuid) {
        assert(create.image(order) =~= create_image(uuid, order));
    }
    if is_suspend_message(suspend, uuid) {
        assert(suspend.image(order) =~= suspend_image(uuid, order));
    }
    if is_table_load_message(load, uuid, sectors, table) {
        assert(load.header.image(order) =~= request_image(
            DM_TABLE_LOAD_SIZE,
            DM_READONLY_FLAG,
            1,
            Seq::empty(),
            uuid,
            order,
        ));
        assert(load.image(order) =~= table_load_image(uuid, sectors, table, order));
    }
}

/// The three requests that put a verified device in the place of the root
/// device, as the bytes that are sent.
#[derive(Debug, PartialEq, Eq)]
pub struct VerityRequests {
    /// Creates the device.
    pub create: Vec<u8>,
    /// Loads the verity table.
    pub load: Vec<u8>,
    /// Brings the device into service.
    pub suspend: Vec<u8>,
}

/// `VerityRequests` as sequences of bytes.
pub struct VerityRequestsView {
    pub create: Seq<u8>,
    pub load: Seq<u8>,
    pub suspend: Seq<u8>,
}

impl DeepView for VerityRequests {
    type V = VerityRequestsView;

    open spec fn deep_view(&self) -> VerityRequestsView {
        VerityRequestsView { create: self.create@, load: self.load@, suspend: self.suspend@ }
    }
}

impl View for VerityRequests {
    type V = VerityRequestsView;

    open spec fn view(&self) -> VerityRequestsView {
        self.deep_view()
    }
}

/// The requests for a root device, the text of its file of parameters and a
/// random seed; or the reason why there are none: the number of data sectors
/// is no number, or the table does not fit its area.
pub open spec fn verity_requests(
    seed: Seq<u8>,
    params_text: Seq<char>,
    root_device: Seq<char>,
    order: ByteOrder,
) -> Result<VerityRequestsView, ErrorView> {
    let params = verity_params(params_text);
    let uuid = uuid_bytes(seed, root_device);
    let table = table_text(params, root_device);
    match number_value(params.data_sectors) {
        Err(reason) => Err(ErrorView::DataSectors { text: params.data_sectors, reason }),
        Ok(sectors) => if terminated(table).len() > DM_PARAMS_LEN {
            Err(ErrorView::TableTooLong)
        } else {
            Ok(
                VerityRequestsView {
                    create: create_image(uuid, order),
                    load: table_load_image(uuid, sectors as u64, table, order),
                    suspend: suspend_image(uuid, order),
                },
            )
        },
    }
}

/// Makes the three requests for a root device from the text of its file of
/// parameters and a random seed.
pub fn plan_requests(seed: &[u8; 16], params_text: &str, root_device: &str, order: ByteOrder) -> (r:
    Result<VerityRequests, Error>)
    ensures
        match verity_requests(seed@, params_text@, root_device@, order) {
            Ok(requests) => r matches Ok(x) && x@ == requests,
            Err(e) => r matches Err(x) && x@ == e,
        },
{
    let params = VerityParams::parse(params_text);
    let uuid = verity_uuid(seed, root_device);
    let create = create_message(uuid.as_slice());
    let load = table_load_message(uuid.as_slice(), &params, root_device)?;
    let suspend = suspend_message(uuid.as_slice());
    proof {
        let sectors = number_value(params@.data_sectors)->Ok_0 as u64;
        lemma_request_images(
            create,
            load,
            suspend,
            uuid@,
            sectors,
            table_text(params@, root_device@),
            order,
        );
    }
    Ok(
        VerityRequests {
            create: create.to_bytes(order),
            load: load.to_bytes(order),
            suspend: suspend.to_bytes(order),
        },
    )
}

/// The minor number in a device number, as the kernel packs the two: bits 0
/// to 7 and bits 20 to 43.
pub open spec fn minor_of(dev: u64) -> u64 {
    ((dev >> 12) & 0xffff_ff00) | (dev & 0xff)
}

/// Calls `nix::sys::stat::minor`, which on Linux shifts the device number
/// right by 12 bits and masks it with `0xffff_ff00`, masks the device number
/// itself with `0xff`, and joins the two. The contract says no more than this.
#[verifier::external_body]
fn device_minor(dev: u64) -> (minor: u64)
    ensures
        minor == minor_of(dev),
{
    nix::sys::stat::minor(dev)
}

/// Calls `getrandom::getrandom` on a buffer of 16 bytes, which fills it with
/// random bytes of the system or fails. Nothing is claimed of the bytes.
#[verifier::external_body]
fn random_seed() -> (seed: Option<[u8; 16]>) {
    let mut seed = [0u8;16];
    match getrandom::getrandom(&mut seed) {
        Ok(()) => Some(seed),
        Err(_) => None,
    }
}

/// The device number in the reply to a control call.
pub open spec fn reply_device(reply: Seq<u8>, order: ByteOrder) -> u64 {
    u64_value(reply.subrange(DM_DEV_OFFSET as int, DM_DEV_OFFSET + 8), order)
}

/// The path of the device node of the mapped device with the given minor number.
pub open spec fn mapped_device_path(minor: u64) -> Seq<char> {
    "/dev/dm-"@ + decimal_digits(minor as nat)
}

/// Reads from the reply to the last control call which device node stands for
/// the verified device. A reply that is shorter than a header is an error.
pub fn verified_device(reply: &[u8], order: ByteOrder) -> (r: Result<String, Error>)
    ensures
        match r {
            Ok(path) => reply.len() >= DM_IOCTL_SIZE && path@ == mapped_device_path(
                minor_of(reply_device(reply@, order)),
            ),
            Err(e) => reply.len() < DM_IOCTL_SIZE && e@ == ErrorView::ShortReply,
        },
{
    if reply.len() < DM_IOCTL_SIZE as usize {
        return Err(Error::ShortReply);
    }
    let dev = get_u64(reply, DM_DEV_OFFSET, order);
    let minor = device_minor(dev);
    let mut path: Vec<char> = Vec::new();
    append_str(&mut path, "/dev/dm-");
    let digits = to_decimal(minor);
    append_chars(&mut path, digits.as_slice());
    Ok(string_of(path.as_slice()))
}

/// How far the preparation of the verified device has come: what was asked
/// for last, and what waits to be sent.
#[derive(Debug, PartialEq, Eq)]
pub enum VerityStage {
    /// It was asked whether the file of parameters is there.
    Probing,
    /// The root device was waited for and the file of parameters was asked for.
    Reading,
    /// The device was asked to be created; the table and the start still wait.
    Creating { load: Vec<u8>, suspend: Vec<u8> },
    /// The table was asked to be loaded; the start still waits.
    Loading { suspend: Vec<u8> },
    /// The device was asked to be brought into service.
    Activating,
}

/// What the preparation of the verified device comes to in one step.
#[derive(Debug, PartialEq, Eq)]
pub enum VerityStep {
    /// The root is not to be verified: another way to prepare it may apply.
    NotApplicable,
    /// The actions are to be done, and their outcome is to be reported in the
    /// stage that is named.
    Ask { actions: Vec<Action>, stage: VerityStage },
    /// The verified device is in service and the root is now this device.
    Handled,
}

/// Whether the root is to be verified: the file of parameters is there, a
/// root device is named, and the file system is on a device of this machine.
pub open spec fn verity_applies(o: OptionsView, params_present: bool) -> bool {
    params_present && o.root is Some && !is_network_type(o.rootfstype)
}

/// What is asked for first: whether the file of parameters is there.
pub fn probe_dmverity() -> (actions: Vec<Action>)
    ensures
        plan_view(actions@) == seq![ActionView::Probe { path: VERITY_PARAMS_PATH@ }],
{
    let mut actions: Vec<Action> = Vec::new();
    actions.push(Action::Probe { path: VERITY_PARAMS_PATH.to_owned() });
    assert(plan_view(actions@) =~= seq![ActionView::Probe { path: VERITY_PARAMS_PATH@ }]);
    actions
}

/// One action as a plan.
fn single(action: Action) -> (actions: Vec<Action>)
    ensures
        plan_view(actions@) == seq![action@],
{
    let mut actions: Vec<Action> = Vec::new();
    actions.push(action);
    assert(plan_view(actions@) =~= seq![action@]);
    actions
}

/// What follows in the stage `Reading` when the file of parameters was read
/// and the random seed is `seed`.
pub open spec fn requests_asked(
    r: Result<VerityStep, Error>,
    seed: Seq<u8>,
    params_text: Seq<char>,
    root_device: Seq<char>,
    order: ByteOrder,
) -> bool {
    match verity_requests(seed, params_text, root_device, order) {
        Ok(requests) => r matches Ok(
            VerityStep::Ask { actions, stage: VerityStage::Creating { load, suspend } },
        ) && plan_view(actions@) == seq![
            ActionView::OpenControl,
            ActionView::Control { command: DM_DEV_CREATE_CMD, message: requests.create },
        ] && load@ == requests.load && suspend@ == requests.suspend,
        Err(e) => r matches Err(x) && x@ == e,
    }
}

/// What one step of the preparation of the verified device comes to: the
/// outcome `r` and the options `after` for a stage, the event that is
/// reported in it, and the options `before`.
///
/// A failure that is reported ends the preparation with its error. After the
/// probe, a root that is not to be verified gives `NotApplicable`; otherwise
/// the root device is waited for and the file of parameters is read. From
/// its text and a random seed the three requests are made; the control
/// device is opened and the requests are sent one after the other, each
/// after the reply to the one before. The reply to the last one names the
/// verified device, which becomes the root. An event that the stage does not
/// wait for is an error, and so is a stage that needs a root where there is
/// none. Only the last step changes the options.
pub open spec fn verity_transition(
    stage: VerityStage,
    event: Event,
    before: OptionsView,
    order: ByteOrder,
    r: Result<VerityStep, Error>,
    after: OptionsView,
) -> bool {
    &&& !(stage is Activating && event is Reply && r is Ok) ==> after == before
    &&& match (stage, event) {
        (_, Event::Failed { error }) => r == Err::<VerityStep, Error>(error),
        (VerityStage::Probing, Event::Present { present }) => if verity_applies(
            before,
            present,
        ) {
            r matches Ok(VerityStep::Ask { actions, stage: VerityStage::Reading }) && plan_view(
                actions@,
            ) == seq![
                ActionView::WaitForDevice { device: before.root->Some_0 },
                ActionView::ReadFile { path: VERITY_PARAMS_PATH@ },
            ]
        } else {
            r == Ok::<VerityStep, Error>(VerityStep::NotApplicable)
        },
        (VerityStage::Reading, Event::Text { text }) => match before.root {
            Some(root) => (r matches Err(e) && e@ == ErrorView::Random) || exists|seed: Seq<u8>|
                seed.len() == 16 && #[trigger] requests_asked(r, seed, text@, root, order),
            None => r matches Err(e) && e@ == ErrorView::NoRoot,
        },
        (VerityStage::Creating { load, suspend }, Event::Reply { .. }) => r matches Ok(
            VerityStep::Ask { actions, stage: VerityStage::Loading { suspend: kept } },
        ) && plan_view(actions@) == seq![
            ActionView::Control { command: DM_TABLE_LOAD_CMD, message: load@ },
        ] && kept@ == suspend@,
        (VerityStage::Loading { suspend }, Event::Reply { .. }) => r matches Ok(
            VerityStep::Ask { actions, stage: VerityStage::Activating },
        ) && plan_view(actions@) == seq![
            ActionView::Control { command: DM_DEV_SUSPEND_CMD, message: suspend@ },
        ],
        (VerityStage::Activating, Event::Reply { message }) => if message.len() < DM_IOCTL_SIZE {
            r matches Err(e) && e@ == ErrorView::ShortReply
        } else {
            r == Ok::<VerityStep, Error>(VerityStep::Handled) && after == (OptionsView {
                root: Some(mapped_device_path(minor_of(reply_device(message@, order)))),
                ..before
            })
        },
        _ => r matches Err(e) && e@ == ErrorView::OutOfOrder,
    }
}

/// Takes the preparation of the verified device one step further. `stage`
/// says what was asked for last and `event` how it went.
pub fn prepare_dmverity(
    stage: VerityStage,
    event: Event,
    options: &mut CmdlineOptions,
    order: ByteOrder,
) -> (r: Result<VerityStep, Error>)
    ensures
        verity_transition(stage, event, old(options)@, order, r, final(options)@),
{
    match (stage, event) {
        (_, Event::Failed { error }) => Err(error),
        (VerityStage::Probing, Event::Present { present }) => {
            let root = match &options.root {
                Some(root) => root,
                None => {
                    return Ok(VerityStep::NotApplicable);
                },
            };
            let fstype = match &options.rootfstype {
                Some(t) => Some(t.as_str()),
                None => None,
            };
            if !present || is_network_fstype(fstype) {
                return Ok(VerityStep::NotApplicable);
            }
            let mut actions: Vec<Action> = Vec::new();
            actions.push(Action::WaitForDevice { device: root.clone() });
            actions.push(Action::ReadFile { path: VERITY_PARAMS_PATH.to_owned() });
            proof {
                assert(plan_view(actions@) =~= seq![
                    ActionView::WaitForDevice { device: old(options)@.root->Some_0 },
                    ActionView::ReadFile { path: VERITY_PARAMS_PATH@ },
                ]);
            }
            Ok(VerityStep::Ask { actions, stage: VerityStage::Reading })
        },
        (VerityStage::Reading, Event::Text { text }) => {
            let root = match &options.root {
                Some(root) => root,
                None => {
                    return Err(Error::NoRoot);
                },
            };
            let seed = match random_seed() {
                Some(seed) => seed,
                None => {
                    return Err(Error::Random);
                },
            };
            let r = match plan_requests(&seed, text.as_str(), root.as_str(), order) {
                Ok(requests) => {
                    let mut actions: Vec<Action> = Vec::new();
                    actions.push(Action::OpenControl);
                    actions.push(
                        Action::Control { command: DM_DEV_CREATE_CMD, message: requests.create },
                    );
                    proof {
                        assert(plan_view(actions@) =~= seq![
                            ActionView::OpenControl,
                            ActionView::Control {
                                command: DM_DEV_CREATE_CMD,
                                message: requests.create@,
                            },
                        ]);
                    }
                    Ok(
                        VerityStep::Ask {
                            actions,
                            stage: VerityStage::Creating {
                                load: requests.load,
                                suspend: requests.suspend,
                            },
                        },
                    )
                },
                Err(e) => Err(e),
            };
            proof {
                assert(requests_asked(r, seed@, text@, root@, order));
            }
            r
        },
        (VerityStage::Creating { load, suspend }, Event::Reply { .. }) => {
            let actions = single(Action::Control { command: DM_TABLE_LOAD_CMD, message: load });
            Ok(VerityStep::Ask { actions, stage: VerityStage::Loading { suspend } })
        },
        (VerityStage::Loading { suspend }, Event::Reply { .. }) => {
            let actions = single(
                Action::Control { command: DM_DEV_SUSPEND_CMD, message: suspend },
            );
            Ok(VerityStep::Ask { actions, stage: VerityStage::Activating })
        },
        (VerityStage::Activating, Event::Reply { message }) => {
            let path = verified_device(message.as_slice(), order)?;
            options.root = Some(path);
            Ok(VerityStep::Handled)
        },
        _ => Err(Error::OutOfOrder),
    }
}

} // verus!
