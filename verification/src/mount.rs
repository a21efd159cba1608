//! Mount attributes and the operations that build the tree of the new root.

use vstd::prelude::*;
use crate::text::{
    append_chars, append_str, chars_of, copy_range, find, same_str, split_once, string_of,
};
use crate::util::{Action, ActionView, Error, ErrorView};

verus! {

/// Mount read-only.
pub const MS_RDONLY: u64 = 0x1;

/// Ignore the set-user-id and set-group-id bits.
pub const MS_NOSUID: u64 = 0x2;

/// Give no access to device special files.
pub const MS_NODEV: u64 = 0x4;

/// Make a directory visible at a second place.
pub const MS_BIND: u64 = 0x1000;

/// Move a mount to another place.
pub const MS_MOVE: u64 = 0x2000;

/// Always update the time of last access.
pub const MS_STRICTATIME: u64 = 0x100_0000;

/// A set of generic mount attributes, one bit each, as `mount(2)` takes them.
#[derive(Debug, Clone, Copy, PartialEq, Eq, Structural)]
pub struct MountFlags {
    pub bits: u64,
}

impl MountFlags {
    /// The set without any attribute.
    pub fn empty() -> (flags: MountFlags)
        ensures
            flags.bits == 0,
    {
        MountFlags { bits: 0 }
    }

    /// The set with exactly the given bits.
    pub fn from_bits(bits: u64) -> (flags: MountFlags)
        ensures
            flags.bits == bits,
    {
        MountFlags { bits }
    }

    /// The bits of the set.
    pub fn bits(&self) -> (bits: u64)
        ensures
            bits == self.bits,
    {
        self.bits
    }

    /// Adds the attributes of `other`.
    pub fn insert(&mut self, other: MountFlags)
        ensures
            final(self).bits == old(self).bits | other.bits,
    {
        self.bits = self.bits | other.bits;
    }

    /// Takes the attributes of `other` away.
    pub fn remove(&mut self, other: MountFlags)
        ensures
            final(self).bits == old(self).bits & !other.bits,
    {
        self.bits = self.bits & !other.bits;
    }

    /// The attributes of both sets.
    pub fn union(self, other: MountFlags) -> (flags: MountFlags)
        ensures
            flags.bits == self.bits | other.bits,
    {
        MountFlags { bits: self.bits | other.bits }
    }

    /// Tells whether every attribute of `other` is in the set.
    pub fn contains(&self, other: MountFlags) -> (r: bool)
        ensures
            r == (self.bits & other.bits == other.bits),
    {
        self.bits & other.bits == other.bits
    }
}

/// The views of the items of `actions`.
pub open spec fn plan_view(actions: Seq<Action>) -> Seq<ActionView> {
    actions.map_values(|a: Action| a@)
}

/// Moves the actions of `tail` to the end of `plan`.
pub fn extend_plan(plan: &mut Vec<Action>, tail: Vec<Action>)
    ensures
        plan_view(final(plan)@) == plan_view(old(plan)@) + plan_view(tail@),
{
    let mut tail = tail;
    let ghost first = plan@;
    let ghost second = tail@;
    plan.append(&mut tail);
    assert(plan_view(plan@) =~= plan_view(first) + plan_view(second));
}

/// Copies a text that may be absent.
pub fn owned_text(text: Option<&str>) -> (copy: Option<String>)
    ensures
        copy.deep_view() == text.deep_view(),
{
    match text {
        Some(t) => Some(t.to_owned()),
        None => None,
    }
}

/// How a file system is mounted: its mount point is created, then it is mounted.
pub open spec fn do_mount_plan(
    src: Option<Seq<char>>,
    dst: Seq<char>,
    fstype: Option<Seq<char>>,
    flags: MountFlags,
    data: Option<Seq<char>>,
) -> Seq<ActionView> {
    seq![
        ActionView::Mkdir { dir: dst },
        ActionView::Mount { source: src, target: dst, fstype, flags, data },
    ]
}

/// How a file system of the kernel's own is mounted: the type stands for the
/// source too, and no attribute or option is given.
pub open spec fn mount_apivfs_plan(dst: Seq<char>, fstype: Seq<char>) -> Seq<ActionView> {
    do_mount_plan(Some(fstype), dst, Some(fstype), MountFlags { bits: 0 }, None)
}

/// Whether the file system type is one that has no device node to wait for.
pub open spec fn is_network_type(fstype: Option<Seq<char>>) -> bool {
    fstype == Some("nfs"@) || fstype == Some("9p"@)
}

/// How the root is mounted on `/root`: the device node is waited for unless
/// the file system comes over the network, then the device is mounted.
pub open spec fn mount_root_plan(
    device: Seq<char>,
    fstype: Option<Seq<char>>,
    fsflags: MountFlags,
    flags: Option<Seq<char>>,
) -> Seq<ActionView> {
    let wait = if is_network_type(fstype) {
        Seq::<ActionView>::empty()
    } else {
        seq![ActionView::WaitForDevice { device }]
    };
    wait + do_mount_plan(Some(device), "/root"@, fstype, fsflags, flags)
}

/// How a mount is moved: first the move, and only then, where traces are to
/// be removed, the removal of the directory that it has left.
pub open spec fn mount_move_plan(src: Seq<char>, dst: Seq<char>, cleanup: bool) -> Seq<ActionView> {
    if cleanup {
        seq![ActionView::MoveMount { from: src, to: dst }, ActionView::RemoveDir { dir: src }]
    } else {
        seq![ActionView::MoveMount { from: src, to: dst }]
    }
}

/// How `/dev`, `/sys` and `/proc` are mounted, in this order.
pub open spec fn mount_special_plan() -> Seq<ActionView> {
    mount_apivfs_plan("/dev"@, "devtmpfs"@) + mount_apivfs_plan("/sys"@, "sysfs"@)
        + mount_apivfs_plan("/proc"@, "proc"@)
}

/// How `/dev`, `/sys` and `/proc` are moved below `/root`, in this order.
pub open spec fn mount_move_special_plan(cleanup: bool) -> Seq<ActionView> {
    mount_move_plan("/dev"@, "/root/dev"@, cleanup) + mount_move_plan(
        "/sys"@,
        "/root/sys"@,
        cleanup,
    ) + mount_move_plan("/proc"@, "/root/proc"@, cleanup)
}

/// Plans a mount: the mount point is created, then the file system is mounted.
pub fn do_mount(
    src: Option<&str>,
    dst: &str,
    fstype: Option<&str>,
    flags: MountFlags,
    data: Option<&str>,
) -> (plan: Vec<Action>)
    ensures
        plan_view(plan@) == do_mount_plan(
            src.deep_view(),
            dst@,
            fstype.deep_view(),
            flags,
            data.deep_view(),
        ),
{
    let mut plan: Vec<Action> = Vec::new();
    plan.push(Action::Mkdir { dir: dst.to_owned() });
    plan.push(
        Action::Mount {
            source: owned_text(src),
            target: dst.to_owned(),
            fstype: owned_text(fstype),
            flags,
            data: owned_text(data),
        },
    );
    assert(plan_view(plan@) =~= do_mount_plan(
        src.deep_view(),
        dst@,
        fstype.deep_view(),
        flags,
        data.deep_view(),
    ));
    plan
}

/// Plans the mount of a file system of the kernel's own.
pub fn mount_apivfs(dst: &str, fstype: &str) -> (plan: Vec<Action>)
    ensures
        plan_view(plan@) == mount_apivfs_plan(dst@, fstype@),
{
    do_mount(Some(fstype), dst, Some(fstype), MountFlags::empty(), None)
}

/// Tells whether the file system type is one that has no device node.
pub fn is_network_fstype(fstype: Option<&str>) -> (r: bool)
    ensures
        r == is_network_type(fstype.deep_view()),
{
    match fstype {
        Some(t) => same_str(t, "nfs") || same_str(t, "9p"),
        None => false,
    }
}

/// Plans the mount of the root on `/root`. Without a root device there is
/// nothing to mount, and the boot cannot go on.
pub fn mount_root(
    device: Option<&str>,
    fstype: Option<&str>,
    fsflags: MountFlags,
    flags: Option<&str>,
) -> (r: Result<Vec<Action>, Error>)
    ensures
        match device {
            Some(root) => r matches Ok(plan) && plan_view(plan@) == mount_root_plan(
                root@,
                fstype.deep_view(),
                fsflags,
                flags.deep_view(),
            ),
            None => r matches Err(e) && e@ == ErrorView::NoRoot,
        },
{
    let root = match device {
        Some(root) => root,
        None => {
            return Err(Error::NoRoot);
        },
    };
    let mut plan: Vec<Action> = Vec::new();
    if !is_network_fstype(fstype) {
        plan.push(Action::WaitForDevice { device: root.to_owned() });
    }
    assert(plan_view(plan@) =~= if is_network_type(fstype.deep_view()) {
        Seq::<ActionView>::empty()
    } else {
        seq![ActionView::WaitForDevice { device: root@ }]
    });
    extend_plan(&mut plan, do_mount(Some(root), "/root", fstype, fsflags, flags));
    Ok(plan)
}

/// Plans the move of a mount. The directory that the mount leaves is removed
/// only after the move, and only where traces are to be removed.
pub fn mount_move(src: &str, dst: &str, cleanup: bool) -> (plan: Vec<Action>)
    ensures
        plan_view(plan@) == mount_move_plan(src@, dst@, cleanup),
{
    let mut plan: Vec<Action> = Vec::new();
    plan.push(Action::MoveMount { from: src.to_owned(), to: dst.to_owned() });
    if cleanup {
        plan.push(Action::RemoveDir { dir: src.to_owned() });
    }
    assert(plan_view(plan@) =~= mount_move_plan(src@, dst@, cleanup));
    plan
}

/// Plans the mounts of `/dev`, `/sys` and `/proc`.
pub fn mount_special() -> (plan: Vec<Action>)
    ensures
        plan_view(plan@) == mount_special_plan(),
{
    let mut plan = mount_apivfs("/dev", "devtmpfs");
    extend_plan(&mut plan, mount_apivfs("/sys", "sysfs"));
    extend_plan(&mut plan, mount_apivfs("/proc", "proc"));
    plan
}

/// Plans the moves of `/dev`, `/sys` and `/proc` below `/root`.
pub fn mount_move_special(cleanup: bool) -> (plan: Vec<Action>)
    ensures
        plan_view(plan@) == mount_move_special_plan(cleanup),
{
    let mut plan = mount_move("/dev", "/root/dev", cleanup);
    extend_plan(&mut plan, mount_move("/sys", "/root/sys", cleanup));
    extend_plan(&mut plan, mount_move("/proc", "/root/proc", cleanup));
    plan
}

/// Whether `plan` holds at `i` the removal of a directory and just before it
/// the move of a mount out of the same directory.
pub open spec fn removal_follows_move(plan: Seq<ActionView>, i: int) -> bool {
    0 < i < plan.len() && plan[i] is RemoveDir && plan[i - 1] is MoveMount && plan[i
        - 1]->MoveMount_from == plan[i]->RemoveDir_dir
}

/// A directory is removed only after its mount has been moved away: in the
/// plan that moves `/dev`, `/sys` and `/proc`, each removal stands directly
/// behind the move out of the same directory, and without `cleanup` the plan
/// removes nothing.
pub proof fn lemma_removal_follows_move(cleanup: bool)
    ensures
        forall|i: int|
            0 <= i < mount_move_special_plan(cleanup).len() && (
            #[trigger] mount_move_special_plan(cleanup)[i]) is RemoveDir ==> cleanup
                && removal_follows_move(mount_move_special_plan(cleanup), i),
{
}

/// The key of the command line that asks for a bind mount.
pub const BIND_KEY: &'static str = "rsinit.bind";

/// The key of the command line that asks for an NFS mount.
pub const NFS_KEY: &'static str = "rsinit.nfs";

/// One mount that the command line asks for besides the root.
#[derive(Debug, PartialEq, Eq)]
pub struct MountOption {
    /// What is mounted.
    pub source: String,
    /// Where it is mounted.
    pub destination: String,
    /// The mount options that the file system itself reads.
    pub options: String,
}

/// A `MountOption` with its texts as sequences of characters.
pub struct MountOptionView {
    pub source: Seq<char>,
    pub destination: Seq<char>,
    pub options: Seq<char>,
}

impl DeepView for MountOption {
    type V = MountOptionView;

    open spec fn deep_view(&self) -> MountOptionView {
        MountOptionView {
            source: self.source@,
            destination: self.destination@,
            options: self.options@,
        }
    }
}

impl View for MountOption {
    type V = MountOptionView;

    open spec fn view(&self) -> MountOptionView {
        self.deep_view()
    }
}

/// The mounts that the command line asks for besides the root, in the order
/// in which it names them.
#[derive(Debug, PartialEq, Eq)]
pub struct MountArgs {
    /// The bind mounts (`rsinit.bind=<source>,<destination>`).
    pub bind: Vec<MountOption>,
    /// The NFS mounts (`rsinit.nfs=<host>:<path>,<destination>`).
    pub nfs: Vec<MountOption>,
}

/// The views of the items of `mounts`.
pub open spec fn mounts_view(mounts: Seq<MountOption>) -> Seq<MountOptionView> {
    mounts.map_values(|m: MountOption| m@)
}

impl Default for MountArgs {
    fn default() -> (args: MountArgs)
        ensures
            args.bind@.len() == 0,
            args.nfs@.len() == 0,
    {
        MountArgs { bind: Vec::new(), nfs: Vec::new() }
    }
}

/// The bind mount that a value asks for: the source before the first comma,
/// the destination behind it.
pub open spec fn bind_option(value: Seq<char>) -> Result<MountOptionView, ErrorView> {
    match split_once(value, ',') {
        Some((source, destination)) => Ok(
            MountOptionView { source, destination, options: Seq::empty() },
        ),
        None => Err(ErrorView::BindFormat { value }),
    }
}

/// The host of the NFS mount that a value asks for: what stands before the
/// first colon of the source, where the value has a source with a colon.
pub open spec fn nfs_host(value: Seq<char>) -> Option<Seq<char>> {
    match split_once(value, ',') {
        Some((source, _)) => match split_once(source, ':') {
            Some((host, _)) => Some(host),
            None => None,
        },
        None => None,
    }
}

/// The NFS mount that a value asks for: the source before the first comma,
/// the destination behind it, and as options the address of the host, NFS
/// version 3 over TCP, without locks. `host_is_address` says whether the host
/// is an IP address.
pub open spec fn nfs_option(value: Seq<char>, host_is_address: bool) -> Result<
    MountOptionView,
    ErrorView,
> {
    match split_once(value, ',') {
        Some((source, destination)) => match split_once(source, ':') {
            Some((host, _)) => if host_is_address {
                Ok(
                    MountOptionView {
                        source,
                        destination,
                        options: "addr="@ + host + ",vers=3,proto=tcp,nolock"@,
                    },
                )
            } else {
                Err(ErrorView::NfsHost)
            },
            None => Err(ErrorView::NfsSource),
        },
        None => Err(ErrorView::NfsFormat { value }),
    }
}

/// How the NFS mounts are made, one after the other.
pub open spec fn nfs_plan(mounts: Seq<MountOptionView>) -> Seq<ActionView>
    decreases mounts.len(),
{
    if mounts.len() == 0 {
        Seq::empty()
    } else {
        nfs_plan(mounts.drop_last()) + do_mount_plan(
            Some(mounts.last().source),
            mounts.last().destination,
            Some("nfs"@),
            MountFlags { bits: 0 },
            Some(mounts.last().options),
        )
    }
}

/// How the bind mounts are made, one after the other.
pub open spec fn bind_plan(mounts: Seq<MountOptionView>) -> Seq<ActionView>
    decreases mounts.len(),
{
    if mounts.len() == 0 {
        Seq::empty()
    } else {
        bind_plan(mounts.drop_last()) + do_mount_plan(
            Some(mounts.last().source),
            mounts.last().destination,
            None,
            MountFlags { bits: MS_BIND },
            None,
        )
    }
}

/// Whether a list of mounts has taken the mount that was asked for: a mount
/// is added at the end, and an error leaves the list as it was.
pub open spec fn mount_added(
    before: Seq<MountOption>,
    asked: Result<MountOptionView, ErrorView>,
    r: Result<(), Error>,
    after: Seq<MountOption>,
) -> bool {
    match asked {
        Ok(mount) => r is Ok && mounts_view(after) == mounts_view(before).push(mount),
        Err(e) => r matches Err(x) && x@ == e && mounts_view(after) == mounts_view(before),
    }
}

/// Adds the mount that was asked for to a list of mounts, or gives the error.
fn add_mount(list: &mut Vec<MountOption>, asked: Result<MountOption, Error>) -> (r: Result<
    (),
    Error,
>)
    ensures
        match asked {
            Ok(mount) => r is Ok && mounts_view(final(list)@) == mounts_view(old(list)@).push(
                mount@,
            ),
            Err(e) => r == Err::<(), Error>(e) && mounts_view(final(list)@) == mounts_view(
                old(list)@,
            ),
        },
{
    let mount = asked?;
    let ghost before = mounts_view(list@);
    list.push(mount);
    proof {
        assert(mounts_view(list@) =~= before.push(mount@));
    }
    Ok(())
}

/// The host of the NFS mount that a value asks for.
pub fn nfs_host_of(value: &str) -> (host: Option<String>)
    ensures
        host.deep_view() == nfs_host(value@),
{
    let chars = chars_of(value);
    let s = chars.as_slice();
    let comma = find(s, ',')?;
    let source = copy_range(s, 0, comma);
    proof {
        assert(s@.take(comma as int) == s@.subrange(0, comma as int));
    }
    let colon = find(source.as_slice(), ':')?;
    let host = copy_range(source.as_slice(), 0, colon);
    proof {
        assert(source@.take(colon as int) == source@.subrange(0, colon as int));
    }
    Some(string_of(host.as_slice()))
}

/// Reads the bind mount that a value asks for.
pub fn parse_bind(value: &str) -> (r: Result<MountOption, Error>)
    ensures
        match bind_option(value@) {
            Ok(mount) => r matches Ok(m) && m@ == mount,
            Err(e) => r matches Err(x) && x@ == e,
        },
{
    let chars = chars_of(value);
    let s = chars.as_slice();
    match find(s, ',') {
        Some(comma) => {
            let source = copy_range(s, 0, comma);
            let destination = copy_range(s, comma + 1, s.len());
            proof {
                assert(s@.take(comma as int) == s@.subrange(0, comma as int));
                assert(s@.skip(comma + 1) == s@.subrange(comma + 1, s.len() as int));
            }
            Ok(
                MountOption {
                    source: string_of(source.as_slice()),
                    destination: string_of(destination.as_slice()),
                    options: String::new(),
                },
            )
        },
        None => Err(Error::BindFormat { value: value.to_owned() }),
    }
}

/// Reads the NFS mount that a value asks for. `host_is_address` says whether
/// the host that the value names is an IP address.
pub fn parse_nfs(value: &str, host_is_address: bool) -> (r: Result<MountOption, Error>)
    ensures
        match nfs_option(value@, host_is_address) {
            Ok(mount) => r matches Ok(m) && m@ == mount,
            Err(e) => r matches Err(x) && x@ == e,
        },
{
    let chars = chars_of(value);
    let s = chars.as_slice();
    let comma = match find(s, ',') {
        Some(comma) => comma,
        None => {
            return Err(Error::NfsFormat { value: value.to_owned() });
        },
    };
    let source = copy_range(s, 0, comma);
    let destination = copy_range(s, comma + 1, s.len());
    proof {
        assert(s@.take(comma as int) == s@.subrange(0, comma as int));
        assert(s@.skip(comma + 1) == s@.subrange(comma + 1, s.len() as int));
    }
    let colon = match find(source.as_slice(), ':') {
        Some(colon) => colon,
        None => {
            return Err(Error::NfsSource);
        },
    };
    if !host_is_address {
        return Err(Error::NfsHost);
    }
    let host = copy_range(source.as_slice(), 0, colon);
    proof {
        assert(source@.take(colon as int) == source@.subrange(0, colon as int));
    }
    let mut options: Vec<char> = Vec::new();
    append_str(&mut options, "addr=");
    append_chars(&mut options, host.as_slice());
    append_str(&mut options, ",vers=3,proto=tcp,nolock");
    Ok(
        MountOption {
            source: string_of(source.as_slice()),
            destination: string_of(destination.as_slice()),
            options: string_of(options.as_slice()),
        },
    )
}

impl MountArgs {
    /// What reading an option comes to: the outcome `r` and the mounts
    /// `after` it, for the mounts `before`, the key and the value.
    ///
    /// `rsinit.bind` adds a bind mount and `rsinit.nfs` an NFS mount; both
    /// need a value. The host of an NFS mount must be an IP address:
    /// `is_address` is asked, with the host as the value names it. Any other
    /// key changes nothing.
    pub open spec fn option_read<V: Fn(&str) -> bool>(
        before: &MountArgs,
        key: Seq<char>,
        value: Option<Seq<char>>,
        is_address: &V,
        r: Result<(), Error>,
        after: &MountArgs,
    ) -> bool {
        if key == BIND_KEY@ {
            mounts_view(after.nfs@) == mounts_view(before.nfs@) && match value {
                Some(v) => mount_added(before.bind@, bind_option(v), r, after.bind@),
                None => mount_added(
                    before.bind@,
                    Err(ErrorView::MissingValue { key }),
                    r,
                    after.bind@,
                ),
            }
        } else if key == NFS_KEY@ {
            mounts_view(after.bind@) == mounts_view(before.bind@) && match value {
                Some(v) => match nfs_host(v) {
                    Some(host) => exists|asked: &str, answer: bool|
                        asked@ == host && #[trigger] call_ensures(*is_address, (asked,), answer)
                            && mount_added(before.nfs@, nfs_option(v, answer), r, after.nfs@),
                    None => mount_added(before.nfs@, nfs_option(v, false), r, after.nfs@),
                },
                None => mount_added(
                    before.nfs@,
                    Err(ErrorView::MissingValue { key }),
                    r,
                    after.nfs@,
                ),
            }
        } else {
            r is Ok && mounts_view(after.bind@) == mounts_view(before.bind@) && mounts_view(
                after.nfs@,
            ) == mounts_view(before.nfs@)
        }
    }

    /// Reads an option of the command line that the boot itself does not read.
    pub fn parse_cmdline<V: Fn(&str) -> bool>(
        &mut self,
        key: &str,
        value: Option<&str>,
        is_address: &V,
    ) -> (r: Result<(), Error>)
        requires
            forall|host: &str| call_requires(*is_address, (host,)),
        ensures
            Self::option_read(old(self), key@, value.deep_view(), is_address, r, final(self)),
    {
        if same_str(key, BIND_KEY) {
            let asked = match value {
                Some(v) => parse_bind(v),
                None => Err(Error::MissingValue { key: key.to_owned() }),
            };
            add_mount(&mut self.bind, asked)
        } else if same_str(key, NFS_KEY) {
            let asked = match value {
                Some(v) => match nfs_host_of(v) {
                    Some(host) => {
                        let answer = is_address(host.as_str());
                        parse_nfs(v, answer)
                    },
                    None => parse_nfs(v, false),
                },
                None => Err(Error::MissingValue { key: key.to_owned() }),
            };
            add_mount(&mut self.nfs, asked)
        } else {
            Ok(())
        }
    }

    /// Plans the mounts: first the NFS mounts, then the bind mounts, each
    /// list in its order.
    pub fn do_mounts(&self) -> (plan: Vec<Action>)
        ensures
            plan_view(plan@) == nfs_plan(mounts_view(self.nfs@)) + bind_plan(
                mounts_view(self.bind@),
            ),
    {
        let mut plan: Vec<Action> = Vec::new();
        let mut i: usize = 0;
        while i < self.nfs.len()
            invariant
                i <= self.nfs.len(),
                plan_view(plan@) == nfs_plan(mounts_view(self.nfs@).take(i as int)),
            decreases self.nfs.len() - i,
        {
            let mount = &self.nfs[i];
            proof {
                let read = mounts_view(self.nfs@).take(i + 1);
                assert(read.drop_last() == mounts_view(self.nfs@).take(i as int));
                assert(read.last() == mount@);
            }
            extend_plan(
                &mut plan,
                do_mount(
                    Some(mount.source.as_str()),
                    mount.destination.as_str(),
                    Some("nfs"),
                    MountFlags::empty(),
                    Some(mount.options.as_str()),
                ),
            );
            i += 1;
        }
        let ghost first = plan_view(plan@);
        proof {
            assert(mounts_view(self.nfs@).take(i as int) == mounts_view(self.nfs@));
            assert(first + bind_plan(mounts_view(self.bind@).take(0)) =~= first);
        }
        let mut j: usize = 0;
        while j < self.bind.len()
            invariant
                j <= self.bind.len(),
                plan_view(plan@) == first + bind_plan(mounts_view(self.bind@).take(j as int)),
            decreases self.bind.len() - j,
        {
            let mount = &self.bind[j];
            let ghost before = bind_plan(mounts_view(self.bind@).take(j as int));
            proof {
                let read = mounts_view(self.bind@).take(j + 1);
                assert(read.drop_last() == mounts_view(self.bind@).take(j as int));
                assert(read.last() == mount@);
            }
            let ghost old_plan = plan_view(plan@);
            extend_plan(
                &mut plan,
                do_mount(
                    Some(mount.source.as_str()),
                    mount.destination.as_str(),
                    None,
                    MountFlags::from_bits(MS_BIND),
                    None,
                ),
            );
            proof {
                let step = do_mount_plan(
                    Some(mount@.source),
                    mount@.destination,
                    None,
                    MountFlags { bits: MS_BIND },
                    None,
                );
                assert((first + before) + step =~= first + (before + step));
            }
            j += 1;
        }
        proof {
            assert(mounts_view(self.bind@).take(j as int) == mounts_view(self.bind@));
        }
        plan
    }
}

} // verus!
