//! What an init of the systemd kind expects of the one that starts it.

use vstd::prelude::*;
use crate::cmdline::{CmdlineOptions, OptionsView};
use crate::mount::{
    do_mount, do_mount_plan, extend_plan, plan_view, MountFlags, MS_BIND, MS_NODEV, MS_NOSUID,
    MS_STRICTATIME,
};
use crate::text::{
    chars_le, chars_of, copy_range, find_in, lemma_lex_le_antisymmetric, lemma_lex_le_total,
    lemma_lex_le_transitive, lex_le, lines, position, same_str, split_lines, starts_with_chars,
    string_of,
};
use crate::util::{Action, ActionView, RebootMode};

verus! {

/// The program whose presence says that the init comes back here to shut down.
pub const SHUTDOWN_PATH: &'static str = "/shutdown";

/// The attributes of the `/run` of the new root: no devices, no set-user-id,
/// strict access times.
pub open spec fn run_flags() -> MountFlags {
    MountFlags { bits: MS_NODEV | MS_NOSUID | MS_STRICTATIME }
}

/// How the `/run` of the new root is made: a `tmpfs` with mode 0755. After
/// it, it is asked whether the program for the shutdown is there.
pub open spec fn mount_systemd_plan() -> Seq<ActionView> {
    do_mount_plan(None, "/root/run"@, Some("tmpfs"@), run_flags(), Some("mode=0755"@)).push(
        ActionView::Probe { path: SHUTDOWN_PATH@ },
    )
}

/// What the shutdown needs: the directories `/run` and `/oldroot` that the
/// init expects when it comes back, and the present root made visible below
/// the `/run` of the new one.
pub open spec fn shutdown_plan(shutdown_present: bool) -> Seq<ActionView> {
    if shutdown_present {
        seq![ActionView::Mkdir { dir: "/run"@ }, ActionView::Mkdir { dir: "/oldroot"@ }]
            + do_mount_plan(
            Some("/"@),
            "/root/run/initramfs"@,
            None,
            MountFlags { bits: MS_BIND },
            None,
        )
    } else {
        Seq::empty()
    }
}

/// Plans the `/run` of the new root, and asks whether the program for the
/// shutdown is there.
pub fn mount_systemd() -> (plan: Vec<Action>)
    ensures
        plan_view(plan@) == mount_systemd_plan(),
{
    let flags = MountFlags::from_bits(MS_NODEV).union(MountFlags::from_bits(MS_NOSUID)).union(
        MountFlags::from_bits(MS_STRICTATIME),
    );
    let mut plan = do_mount(None, "/root/run", Some("tmpfs"), flags, Some("mode=0755"));
    let ghost mounted = plan_view(plan@);
    plan.push(Action::Probe { path: SHUTDOWN_PATH.to_owned() });
    proof {
        assert(flags == run_flags());
        assert(plan_view(plan@) =~= mounted.push(ActionView::Probe { path: SHUTDOWN_PATH@ }));
    }
    plan
}

/// Plans what the shutdown needs, once it is known whether the program for it
/// is there. Where it is, this program keeps its traces: the init will come
/// back to them.
pub fn prepare_shutdown(options: &mut CmdlineOptions, shutdown_present: bool) -> (plan: Vec<Action>)
    ensures
        plan_view(plan@) == shutdown_plan(shutdown_present),
        final(options)@ == (OptionsView {
            cleanup: old(options)@.cleanup && !shutdown_present,
            ..old(options)@
        }),
{
    let mut plan: Vec<Action> = Vec::new();
    if !shutdown_present {
        assert(plan_view(plan@) =~= shutdown_plan(shutdown_present));
        return plan;
    }
    options.cleanup = false;
    plan.push(Action::Mkdir { dir: "/run".to_owned() });
    plan.push(Action::Mkdir { dir: "/oldroot".to_owned() });
    assert(plan_view(plan@) =~= seq![
        ActionView::Mkdir { dir: "/run"@ },
        ActionView::Mkdir { dir: "/oldroot"@ },
    ]);
    extend_plan(
        &mut plan,
        do_mount(Some("/"), "/root/run/initramfs", None, MountFlags::from_bits(MS_BIND), None),
    );
    plan
}

/// The directory below which the init leaves the mounts of the system that
/// goes down.
pub const OLD_ROOT: &'static str = "/oldroot";

/// The file that lists the mounts.
pub const MOUNTINFO_PATH: &'static str = "/proc/self/mountinfo";

/// The place of the mount point among the fields of a line of the list of
/// mounts, counted from 0.
pub const MOUNT_POINT_FIELD: usize = 4;

/// The field with the number `n`, counted from 0, of a line whose fields are
/// parted by single spaces.
pub open spec fn field(line: Seq<char>, n: nat) -> Option<Seq<char>>
    decreases n,
{
    match position(line, ' ') {
        Some(i) => if n == 0 {
            Some(line.take(i))
        } else {
            field(line.skip(i + 1), (n - 1) as nat)
        },
        None => if n == 0 {
            Some(line)
        } else {
            None
        },
    }
}

/// The mount point of a line of the list of mounts, if it lies below `/oldroot`.
pub open spec fn old_root_mount(line: Seq<char>) -> Option<Seq<char>> {
    match field(line, MOUNT_POINT_FIELD as nat) {
        Some(point) => if OLD_ROOT@.is_prefix_of(point) {
            Some(point)
        } else {
            None
        },
        None => None,
    }
}

/// The mount points below `/oldroot` that the lines name, in the order of
/// the lines.
pub open spec fn old_root_mounts(rows: Seq<Seq<char>>) -> Seq<Seq<char>>
    decreases rows.len(),
{
    if rows.len() == 0 {
        Seq::empty()
    } else {
        match old_root_mount(rows.last()) {
            Some(point) => old_root_mounts(rows.drop_last()).push(point),
            None => old_root_mounts(rows.drop_last()),
        }
    }
}

/// Whether the texts stand in descending order: none stands before one that
/// comes earlier.
pub open spec fn is_descending(s: Seq<Seq<char>>) -> bool {
    forall|i: int, j: int| 0 <= i < j < s.len() ==> lex_le(#[trigger] s[j], #[trigger] s[i])
}

/// How the machine goes down for the first argument of the program: `halt`,
/// `kexec` or `poweroff`; with anything else it starts again.
pub open spec fn reboot_mode_of(arg: Option<Seq<char>>) -> RebootMode {
    if arg == Some("halt"@) {
        RebootMode::Halt
    } else if arg == Some("kexec"@) {
        RebootMode::Kexec
    } else if arg == Some("poweroff"@) {
        RebootMode::PowerOff
    } else {
        RebootMode::Autoboot
    }
}

/// The unmounting of each of the targets, in their order.
pub open spec fn umount_plan(targets: Seq<Seq<char>>) -> Seq<ActionView> {
    targets.map_values(|target: Seq<char>| ActionView::Umount { target })
}

/// The mounts that are unmounted: those below `/oldroot` in the list of
/// mounts, and none where the list could not be read.
pub open spec fn mounts_to_leave(mountinfo: Option<Seq<char>>) -> Seq<Seq<char>> {
    match mountinfo {
        Some(text) => old_root_mounts(lines(text)),
        None => Seq::empty(),
    }
}

/// Reads the field with the number `n` of a line.
fn nth_field(line: &[char], n: usize) -> (r: Option<Vec<char>>)
    ensures
        r.deep_view() == field(line@, n as nat),
{
    let mut from: usize = 0;
    let mut left: usize = n;
    proof {
        assert(line@.skip(0) == line@);
    }
    loop
        invariant
            from <= line.len(),
            field(line@, n as nat) == field(line@.skip(from as int), left as nat),
        decreases left,
    {
        proof {
            assert(line@.skip(from as int) == line@.subrange(from as int, line.len() as int));
        }
        match find_in(line, from, line.len(), ' ') {
            Some(space) => {
                if left == 0 {
                    let found = copy_range(line, from, space);
                    proof {
                        assert(line@.skip(from as int).take(space - from) == line@.subrange(
                            from as int,
                            space as int,
                        ));
                        assert(found.deep_view() =~= found@);
                    }
                    return Some(found);
                }
                proof {
                    assert(line@.skip(from as int).skip(space - from + 1) == line@.skip(
                        space + 1,
                    ));
                }
                from = space + 1;
                left = left - 1;
            },
            None => {
                if left == 0 {
                    let found = copy_range(line, from, line.len());
                    proof {
                        assert(found.deep_view() =~= found@);
                    }
                    return Some(found);
                }
                return None;
            },
        }
    }
}

/// Puts a text into a list in descending order, at its place.
fn insert_descending(sorted: &mut Vec<Vec<char>>, item: Vec<char>)
    requires
        is_descending(old(sorted).deep_view()),
    ensures
        is_descending(final(sorted).deep_view()),
        final(sorted).deep_view().to_multiset() == old(sorted).deep_view().to_multiset().insert(
            item@,
        ),
{
    let mut at: usize = 0;
    while at < sorted.len() && !chars_le(sorted[at].as_slice(), item.as_slice())
        invariant
            at <= sorted.len(),
            forall|k: int| 0 <= k < at ==> !lex_le(#[trigger] sorted.deep_view()[k], item@),
        decreases sorted.len() - at,
    {
        proof {
            assert(sorted@[at as int].deep_view() =~= sorted@[at as int]@);
        }
        at += 1;
    }
    let ghost before = sorted.deep_view();
    proof {
        if at < sorted.len() {
            assert(sorted@[at as int].deep_view() =~= sorted@[at as int]@);
        }
        assert(item.deep_view() =~= item@);
    }
    sorted.insert(at, item);
    proof {
        let after = sorted.deep_view();
        assert(after =~= before.insert(at as int, item@));
        assert forall|i: int, j: int| 0 <= i < j < after.len() implies lex_le(
            #[trigger] after[j],
            #[trigger] after[i],
        ) by {
            if j == at {
                assert(after[i] == before[i]);
                lemma_lex_le_total(before[i], item@);
            } else if i == at {
                assert(after[j] == before[j - 1]);
                if j - 1 > at {
                    assert(lex_le(before[j - 1], before[at as int]));
                    lemma_lex_le_transitive(before[j - 1], before[at as int], item@);
                }
            } else {
                let bi = if i < at {
                    i
                } else {
                    i - 1
                };
                let bj = if j < at {
                    j
                } else {
                    j - 1
                };
                assert(after[i] == before[bi] && after[j] == before[bj]);
                assert(lex_le(before[bj], before[bi]));
            }
        }
        vstd::seq_lib::to_multiset_insert(before, at as int, item@);
    }
}

/// Plans the end of the system: what is mounted below `/oldroot` is unmounted
/// in descending order of the paths, so that what is mounted inside a mount
/// goes before it, and then the machine goes down. `mountinfo` is the text of
/// the list of mounts, if it could be read; `arg` is the first argument of
/// the program.
pub fn shutdown(mountinfo: Option<&str>, arg: Option<&str>) -> (plan: Vec<Action>)
    ensures
        exists|targets: Seq<Seq<char>>|
            #![trigger umount_plan(targets)]
            is_descending(targets) && targets.to_multiset() == mounts_to_leave(
                mountinfo.deep_view(),
            ).to_multiset() && plan_view(plan@) == umount_plan(targets).push(
                ActionView::Reboot { mode: reboot_mode_of(arg.deep_view()) },
            ),
{
    let mut sorted: Vec<Vec<char>> = Vec::new();
    match mountinfo {
        Some(text) => {
            let chars = chars_of(text);
            let rows = split_lines(chars.as_slice());
            let wanted = chars_of(OLD_ROOT);
            let mut i: usize = 0;
            proof {
                assert(rows.deep_view().take(0).len() == 0);
                assert(sorted.deep_view() =~= old_root_mounts(rows.deep_view().take(0)));
            }
            while i < rows.len()
                invariant
                    i <= rows.len(),
                    wanted@ == OLD_ROOT@,
                    is_descending(sorted.deep_view()),
                    sorted.deep_view().to_multiset() == old_root_mounts(
                        rows.deep_view().take(i as int),
                    ).to_multiset(),
                decreases rows.len() - i,
            {
                let row = rows[i].as_slice();
                proof {
                    let read = rows.deep_view().take(i + 1);
                    assert(read.drop_last() == rows.deep_view().take(i as int));
                    assert(read.last() == row@) by {
                        assert(rows@[i as int].deep_view() =~= rows@[i as int]@);
                    }
                }
                match nth_field(row, MOUNT_POINT_FIELD) {
                    Some(point) => {
                        proof {
                            assert(point.deep_view() =~= point@);
                        }
                        if starts_with_chars(point.as_slice(), wanted.as_slice()) {
                            proof {
                                vstd::seq_lib::to_multiset_build(
                                    old_root_mounts(rows.deep_view().take(i as int)),
                                    point@,
                                );
                            }
                            insert_descending(&mut sorted, point);
                        }
                    },
                    None => {},
                }
                i += 1;
            }
            proof {
                assert(rows.deep_view().take(i as int) == rows.deep_view());
            }
        },
        None => {
            proof {
                assert(sorted.deep_view() =~= mounts_to_leave(mountinfo.deep_view()));
            }
        },
    }
    let ghost targets = sorted.deep_view();
    proof {
        assert(is_descending(targets));
        assert(targets.to_multiset() == mounts_to_leave(mountinfo.deep_view()).to_multiset());
    }
    let mut plan: Vec<Action> = Vec::new();
    proof {
        assert(plan_view(plan@) =~= umount_plan(targets.take(0)));
    }
    let mut k: usize = 0;
    while k < sorted.len()
        invariant
            k <= sorted.len(),
            targets == sorted.deep_view(),
            plan_view(plan@) == umount_plan(targets.take(k as int)),
        decreases sorted.len() - k,
    {
        let target = string_of(sorted[k].as_slice());
        proof {
            assert(sorted@[k as int].deep_view() =~= sorted@[k as int]@);
        }
        let ghost before = plan_view(plan@);
        plan.push(Action::Umount { target });
        proof {
            assert(plan_view(plan@) =~= before.push(
                ActionView::Umount { target: targets[k as int] },
            ));
            assert(umount_plan(targets.take(k + 1)) =~= umount_plan(targets.take(k as int)).push(
                ActionView::Umount { target: targets[k as int] },
            ));
        }
        k += 1;
    }
    proof {
        assert(targets.take(k as int) == targets);
    }
    let mode = match arg {
        Some(a) => if same_str(a, "halt") {
            RebootMode::Halt
        } else if same_str(a, "kexec") {
            RebootMode::Kexec
        } else if same_str(a, "poweroff") {
            RebootMode::PowerOff
        } else {
            RebootMode::Autoboot
        },
        None => RebootMode::Autoboot,
    };
    let ghost unmounted = plan_view(plan@);
    plan.push(Action::Reboot { mode });
    proof {
        assert(plan_view(plan@) =~= unmounted.push(ActionView::Reboot { mode }));
        assert(mode == reboot_mode_of(arg.deep_view()));
        assert(plan_view(plan@) == umount_plan(targets).push(
            ActionView::Reboot { mode: reboot_mode_of(arg.deep_view()) },
        ));
    }
    plan
}

/// A text that is among the texts of a descending list does not stand behind
/// the first of them.
proof fn lemma_first_is_greatest(s: Seq<Seq<char>>, x: Seq<char>)
    requires
        is_descending(s),
        s.contains(x),
    ensures
        lex_le(x, s[0]),
{
    let i = choose|i: int| 0 <= i < s.len() && s[i] == x;
    if i > 0 {
        assert(lex_le(s[i], s[0]));
    } else {
        lemma_lex_le_total(x, x);
    }
}

/// The order of unmounting is decided by what is mounted: two lists in
/// descending order that hold the same texts equally often are the same list.
pub proof fn lemma_descending_unique(a: Seq<Seq<char>>, b: Seq<Seq<char>>)
    requires
        is_descending(a),
        is_descending(b),
        a.to_multiset() == b.to_multiset(),
    ensures
        a == b,
    decreases a.len(),
{
    vstd::seq_lib::to_multiset_len(a);
    vstd::seq_lib::to_multiset_len(b);
    if a.len() == 0 {
        assert(a =~= b);
    } else {
        vstd::seq_lib::to_multiset_contains(a, a[0]);
        vstd::seq_lib::to_multiset_contains(b, a[0]);
        vstd::seq_lib::to_multiset_contains(a, b[0]);
        vstd::seq_lib::to_multiset_contains(b, b[0]);
        assert(a.contains(a[0]));
        assert(b.contains(b[0]));
        lemma_first_is_greatest(b, a[0]);
        lemma_first_is_greatest(a, b[0]);
        lemma_lex_le_antisymmetric(a[0], b[0]);
        let a1 = a.remove(0);
        let b1 = b.remove(0);
        vstd::seq_lib::to_multiset_remove(a, 0);
        vstd::seq_lib::to_multiset_remove(b, 0);
        assert forall|i: int, j: int| 0 <= i < j < a1.len() implies lex_le(
            #[trigger] a1[j],
            #[trigger] a1[i],
        ) by {
            assert(a1[i] == a[i + 1] && a1[j] == a[j + 1]);
        }
        assert forall|i: int, j: int| 0 <= i < j < b1.len() implies lex_le(
            #[trigger] b1[j],
            #[trigger] b1[i],
        ) by {
            assert(b1[i] == b[i + 1] && b1[j] == b[j + 1]);
        }
        lemma_descending_unique(a1, b1);
        assert(a =~= seq![a[0]] + a1);
        assert(b =~= seq![b[0]] + b1);
    }
}

} // verus!
