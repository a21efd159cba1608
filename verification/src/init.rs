//! The boot from its first step to the hand-over: a fixed order of phases, in
//! each of which the caller is asked for some actions and reports how they
//! went. A failure in any phase ends the boot.

use vstd::prelude::*;
use vstd::utf8::encode_utf8;
use crate::cmdline::{
    callable, cmdline_read, default_options, needs_table, parse_cmdline, table_view,
    CmdlineOptions, OptionsView,
};
use crate::dmverity::{
    prepare_dmverity, probe_dmverity, verity_transition, ByteOrder, VerityStage, VerityStep,
    VERITY_PARAMS_PATH,
};
use crate::mount::{
    extend_plan, mount_move_special, mount_move_special_plan, mount_root, mount_root_plan,
    mount_special, mount_special_plan, plan_view,
};
use crate::systemd::{mount_systemd, mount_systemd_plan, prepare_shutdown, shutdown_plan};
use crate::usbg_9pfs::{
    gadget_applies, gadget_plan, prepare_9pfs_gadget, setup_9pfs_gadget, UDC_DIR,
};
use crate::text::{append_chars, append_str, decimal_digits, string_of, to_decimal};
use crate::util::{Action, ActionView, Error, ErrorView, Event};

verus! {

/// The file that holds the command line of the kernel.
pub const CMDLINE_PATH: &'static str = "/proc/cmdline";

/// The file that holds the table of boot-time network parameters.
pub const NETWORK_TABLE_PATH: &'static str = "/proc/net/pnp";

/// The parts of the boot that a build can leave out.
#[derive(Debug, Clone, Copy, PartialEq, Eq, Structural)]
pub struct Features {
    /// Verify the root device where a file of parameters asks for it.
    pub dmverity: bool,
    /// Set up the USB gadget for a 9p root that comes over it.
    pub usb9pfs: bool,
    /// Prepare `/run` and the shutdown for an init of the systemd kind.
    pub systemd: bool,
}

/// The callbacks by which the boot is extended, each list in the order in
/// which its callbacks are called.
pub struct InitContextCallbacks<C, H> {
    /// Called with each option of the command line that the boot itself does
    /// not read.
    pub cmdline_cb: Vec<C>,
    /// Called with the options once the command line is read.
    pub post_setup_cb: Vec<H>,
    /// Called with the options once the root is mounted.
    pub post_root_mount_cb: Vec<H>,
}

/// Where the boot stands: what the caller was asked for last.
#[derive(Debug, PartialEq, Eq)]
pub enum Phase {
    /// Nothing was asked for yet.
    Created,
    /// `/dev`, `/sys` and `/proc`, the log and the command line were asked for.
    AwaitCmdline,
    /// The table of network parameters was asked for, to resolve the NFS root
    /// of the command line that is kept here.
    AwaitNetworkTable { cmdline: String },
    /// The verified device is being prepared.
    Verity { stage: VerityStage },
    /// A USB device controller for the gadget was asked for.
    AwaitUdc,
    /// The mount of the root was asked for.
    AwaitRootMount,
    /// The `/run` of the new root was asked for, and whether the program for
    /// the shutdown is there.
    AwaitShutdownProbe,
    /// The change of the root was asked for.
    AwaitSwitchRoot,
    /// The start of the init was asked for.
    HandOff,
    /// The boot has failed.
    Aborted,
}

/// The boot of one machine.
pub struct InitContext<C, H> {
    /// What the boot was told.
    pub options: CmdlineOptions,
    /// The callbacks by which the boot is extended.
    pub callbacks: InitContextCallbacks<C, H>,
    /// The parts of the boot that are in use.
    pub features: Features,
    /// The byte order of the machine.
    pub order: ByteOrder,
    /// The arguments of this program after its name; the init gets them.
    pub args: Vec<Vec<u8>>,
    /// Where the boot stands.
    pub phase: Phase,
}

/// The place of a phase in the order of the boot.
pub open spec fn rank(phase: Phase) -> nat {
    match phase {
        Phase::Created => 0,
        Phase::AwaitCmdline => 1,
        Phase::AwaitNetworkTable { .. } => 2,
        Phase::Verity { stage } => match stage {
            VerityStage::Probing => 3,
            VerityStage::Reading => 4,
            VerityStage::Creating { .. } => 5,
            VerityStage::Loading { .. } => 6,
            VerityStage::Activating => 7,
        },
        Phase::AwaitUdc => 8,
        Phase::AwaitRootMount => 9,
        Phase::AwaitShutdownProbe => 10,
        Phase::AwaitSwitchRoot => 11,
        Phase::HandOff => 12,
        Phase::Aborted => 13,
    }
}

/// Every hook can be called with every value of the options.
pub open spec fn hooks_callable<H: Fn(&mut CmdlineOptions) -> Result<(), Error>>(
    hooks: Seq<H>,
) -> bool {
    forall|j: int, options: &mut CmdlineOptions|
        0 <= j < hooks.len() ==> #[trigger] call_requires(hooks[j], (options,))
}

/// How the root is mounted, or why it cannot be: no root device is known.
pub open spec fn root_mount(o: OptionsView) -> Result<Seq<ActionView>, ErrorView> {
    match o.root {
        Some(root) => Ok(mount_root_plan(root, o.rootfstype, o.rootfsflags, o.rootflags)),
        None => Err(ErrorView::NoRoot),
    }
}

/// Whether the outcome `r` and `phase` are what follows when the root is not
/// verified. Where the root comes over the USB gadget, a USB device
/// controller is looked for, which needs a root device to set the gadget up
/// for. Otherwise the root is mounted.
pub open spec fn aux_prepared(
    o: OptionsView,
    features: Features,
    r: Result<Vec<Action>, Error>,
    phase: Phase,
) -> bool {
    if features.usb9pfs && gadget_applies(o) {
        match o.root {
            Some(_) => r matches Ok(actions) && plan_view(actions@) == seq![
                ActionView::FirstEntry { dir: UDC_DIR@ },
            ] && phase == Phase::AwaitUdc,
            None => r matches Err(e) && e@ == ErrorView::MissingGadgetRoot,
        }
    } else {
        match root_mount(o) {
            Ok(plan) => r matches Ok(actions) && plan_view(actions@) == plan && phase
                == Phase::AwaitRootMount,
            Err(e) => r matches Err(x) && x@ == e,
        }
    }
}

/// Whether the outcome `r` and `phase` are what follows the search for a USB
/// device controller. Without one the boot cannot go on. With one, the gadget
/// is set up on it for the root device, and the root is mounted.
pub open spec fn gadget_set_up(
    o: OptionsView,
    udc: Option<Seq<u8>>,
    r: Result<Vec<Action>, Error>,
    phase: Phase,
) -> bool {
    match udc {
        None => r matches Err(e) && e@ == ErrorView::NoUdc,
        Some(name) => match o.root {
            Some(root) => r matches Ok(actions) && plan_view(actions@) == gadget_plan(root, name)
                + mount_root_plan(root, o.rootfstype, o.rootfsflags, o.rootflags) && phase
                == Phase::AwaitRootMount,
            None => r matches Err(e) && e@ == ErrorView::MissingGadgetRoot,
        },
    }
}

/// What the init is started with: its own path, then the arguments of this
/// program, as they are.
pub open spec fn init_argv(o: OptionsView, args: Seq<Seq<u8>>) -> Seq<Seq<u8>> {
    seq![encode_utf8(o.init)] + args
}

/// Whether one of the arguments holds a NUL byte.
pub open spec fn has_nul(argv: Seq<Seq<u8>>) -> bool {
    exists|i: int| 0 <= i < argv.len() && #[trigger] argv[i].contains(0u8)
}

/// How the root is changed: this program's own file is removed and `/dev`,
/// `/sys` and `/proc` are moved below the new root, with the removal of what
/// they leave, where traces are to be removed; then the new root is entered
/// and made the root.
pub open spec fn switch_root_plan(o: OptionsView) -> Seq<ActionView> {
    let unlink = if o.cleanup {
        seq![ActionView::UnlinkSelf]
    } else {
        Seq::<ActionView>::empty()
    };
    unlink + mount_move_special_plan(o.cleanup) + seq![
        ActionView::Chdir { dir: "/root"@ },
        ActionView::Chroot { dir: "."@ },
        ActionView::Chdir { dir: "/"@ },
    ]
}

/// Whether the outcome `r` and `phase` are how the init is started once the
/// root is changed: with its own path and the arguments of this program. An
/// argument with a NUL byte cannot be passed on, and the boot ends with that.
pub open spec fn init_started(
    o: OptionsView,
    args: Seq<Seq<u8>>,
    r: Result<Vec<Action>, Error>,
    phase: Phase,
) -> bool {
    if has_nul(init_argv(o, args)) {
        r matches Err(e) && e@ == ErrorView::NulInArgument
    } else {
        r matches Ok(actions) && plan_view(actions@) == seq![
            ActionView::Exec { argv: init_argv(o, args) },
        ] && phase == Phase::HandOff
    }
}

/// The first actions of the boot: `/dev`, `/sys` and `/proc` are mounted, the
/// log is set up, and the command line is read.
pub open spec fn start_plan() -> Seq<ActionView> {
    mount_special_plan() + seq![
        ActionView::SetupLog,
        ActionView::ReadFile { path: CMDLINE_PATH@ },
    ]
}

/// Whether the outcome `r` and `phase` are how the preparation of the root
/// begins for the options `o`: with the probe for the verified device where
/// that part is in use, and as without a verified device where it is not.
pub open spec fn preparation_begins(
    o: OptionsView,
    features: Features,
    r: Result<Vec<Action>, Error>,
    phase: Phase,
) -> bool {
    if features.dmverity {
        r matches Ok(actions) && plan_view(actions@) == seq![
            ActionView::Probe { path: VERITY_PARAMS_PATH@ },
        ] && phase == (Phase::Verity { stage: VerityStage::Probing })
    } else {
        aux_prepared(o, features, r, phase)
    }
}

/// Whether the outcome `r` and `phase` are how the boot goes on once the root
/// is mounted and the options are `o`: with the `/run` of the new root where
/// that part is in use, and with the change of the root where it is not.
pub open spec fn root_mounted(
    o: OptionsView,
    features: Features,
    r: Result<Vec<Action>, Error>,
    phase: Phase,
) -> bool {
    if features.systemd {
        r matches Ok(actions) && plan_view(actions@) == mount_systemd_plan() && phase
            == Phase::AwaitShutdownProbe
    } else {
        r matches Ok(actions) && plan_view(actions@) == switch_root_plan(o) && phase
            == Phase::AwaitSwitchRoot
    }
}

/// Whether `states` can be the options before, between and after the calls
/// of `hooks` hooks that end with the outcome `r`: on success every hook was
/// called; on failure at least one was, and none after the one that failed.
pub open spec fn hooks_chain(
    hooks: nat,
    states: Seq<CmdlineOptions>,
    r: Result<(), Error>,
) -> bool {
    match r {
        Ok(_) => states.len() == hooks + 1,
        Err(_) => 2 <= states.len() <= hooks + 1,
    }
}

/// Whether `answer` can be what the hook with the number `j` has answered
/// when `called` hooks were called and the outcome is `r`: the last one has
/// answered `r`, and each one before it that all is well.
pub open spec fn answer_fits(
    j: int,
    called: int,
    answer: Result<(), Error>,
    r: Result<(), Error>,
) -> bool {
    if j + 1 < called {
        answer is Ok
    } else {
        answer == r
    }
}

/// Calls one hook with the options.
fn call_hook<H: Fn(&mut CmdlineOptions) -> Result<(), Error>>(
    hook: &H,
    options: &mut CmdlineOptions,
) -> (r: Result<(), Error>)
    requires
        forall|o: &mut CmdlineOptions| #[trigger] call_requires(*hook, (o,)),
    ensures
        exists|o: &mut CmdlineOptions|
            *o == *old(options) && *final(o) == *final(options) && #[trigger] call_ensures(
                *hook,
                (o,),
                r,
            ),
{
    hook(options)
}

/// Calls the hooks with the options, in their order, up to the first that
/// fails. Each hook gets the options as the one before has left them. The
/// outcome is the error of the hook that has failed, and success where none
/// has.
pub fn run_hooks<H: Fn(&mut CmdlineOptions) -> Result<(), Error>>(
    hooks: &[H],
    options: &mut CmdlineOptions,
) -> (r: Result<(), Error>)
    requires
        hooks_callable(hooks@),
    ensures
        exists|states: Seq<CmdlineOptions>|
            #![trigger hooks_chain(hooks@.len(), states, r)]
            hooks_chain(hooks@.len(), states, r) && states.first() == *old(options)
                && states.last() == *final(options) && forall|j: int|
                #![trigger states[j]]
                0 <= j < states.len() - 1 ==> exists|o: &mut CmdlineOptions|
                    *o == states[j] && *final(o) == states[j + 1] && exists|
                        answer: Result<(), Error>,
                    |
                        #[trigger] call_ensures(hooks@[j], (o,), answer) && answer_fits(
                            j,
                            states.len() - 1,
                            answer,
                            r,
                        ),
        hooks@.len() == 0 ==> r is Ok && *final(options) == *old(options),
{
    let ghost mut states: Seq<CmdlineOptions> = seq![*options];
    let mut j: usize = 0;
    while j < hooks.len()
        invariant
            j <= hooks.len(),
            hooks_callable(hooks@),
            states.len() == j + 1,
            states.first() == *old(options),
            states.last() == *options,
            forall|k: int|
                #![trigger states[k]]
                0 <= k < j ==> exists|o: &mut CmdlineOptions|
                    *o == states[k] && *final(o) == states[k + 1] && exists|
                        answer: Result<(), Error>,
                    |
                        #[trigger] call_ensures(hooks@[k], (o,), answer) && answer is Ok,
        decreases hooks.len() - j,
    {
        let ghost before = states;
        let answer = call_hook(&hooks[j], options);
        proof {
            states = states.push(*options);
            assert(exists|o: &mut CmdlineOptions|
                *o == states[j as int] && *final(o) == states[j + 1] && #[trigger] call_ensures(
                    hooks@[j as int],
                    (o,),
                    answer,
                ));
        }
        if answer.is_err() {
            proof {
                assert(hooks_chain(hooks@.len(), states, answer));
                assert forall|k: int|
                    #![trigger states[k]]
                    0 <= k < states.len() - 1 implies exists|o: &mut CmdlineOptions|
                    *o == states[k] && *final(o) == states[k + 1] && exists|
                        a: Result<(), Error>,
                    |
                        #[trigger] call_ensures(hooks@[k], (o,), a) && answer_fits(
                            k,
                            states.len() - 1,
                            a,
                            answer,
                        ) by {
                    if k < j {
                        assert(states[k] == before[k] && states[k + 1] == before[k + 1]);
                    }
                }
            }
            return answer;
        }
        proof {
            assert forall|k: int|
                #![trigger states[k]]
                0 <= k < j + 1 implies exists|o: &mut CmdlineOptions|
                *o == states[k] && *final(o) == states[k + 1] && exists|a: Result<(), Error>|
                    #[trigger] call_ensures(hooks@[k], (o,), a) && a is Ok by {
                if k < j {
                    assert(states[k] == before[k] && states[k + 1] == before[k + 1]);
                }
            }
        }
        j += 1;
    }
    let r = Ok(());
    proof {
        assert(hooks_chain(hooks@.len(), states, r));
        assert forall|k: int|
            #![trigger states[k]]
            0 <= k < states.len() - 1 implies exists|o: &mut CmdlineOptions|
            *o == states[k] && *final(o) == states[k + 1] && exists|a: Result<(), Error>|
                #[trigger] call_ensures(hooks@[k], (o,), a) && answer_fits(
                    k,
                    states.len() - 1,
                    a,
                    r,
                ) by {
            let o = choose|o: &mut CmdlineOptions|
                *o == states[k] && *final(o) == states[k + 1] && exists|a: Result<(), Error>|
                    #[trigger] call_ensures(hooks@[k], (o,), a) && a is Ok;
            let a = choose|a: Result<(), Error>|
                #[trigger] call_ensures(hooks@[k], (o,), a) && a is Ok;
            assert(a->Ok_0 == ());
            assert(a == r);
        }
    }
    r
}

/// Tells whether the bytes hold a NUL byte.
fn holds_nul(bytes: &[u8]) -> (r: bool)
    ensures
        r == bytes@.contains(0u8),
{
    let mut i: usize = 0;
    while i < bytes.len()
        invariant
            i <= bytes.len(),
            forall|k: int| 0 <= k < i ==> bytes@[k] != 0u8,
        decreases bytes.len() - i,
    {
        if bytes[i] == 0 {
            return true;
        }
        i += 1;
    }
    false
}

impl<
    C: Fn(&str, Option<&str>) -> Result<(), Error>,
    H: Fn(&mut CmdlineOptions) -> Result<(), Error>,
> InitContext<C, H> {
    /// Every callback can be called with everything.
    pub open spec fn wf(&self) -> bool {
        &&& callable(self.callbacks.cmdline_cb@)
        &&& hooks_callable(self.callbacks.post_setup_cb@)
        &&& hooks_callable(self.callbacks.post_root_mount_cb@)
    }

    /// What a step leaves as it is: the callbacks, the parts in use, the byte
    /// order and the arguments.
    pub open spec fn same_setting(&self, other: &Self) -> bool {
        &&& self.callbacks == other.callbacks
        &&& self.features == other.features
        &&& self.order == other.order
        &&& self.args == other.args
    }

    /// A boot that has not begun, with the default options.
    pub fn new(
        callbacks: InitContextCallbacks<C, H>,
        features: Features,
        order: ByteOrder,
        args: Vec<Vec<u8>>,
    ) -> (ctx: Self)
        ensures
            ctx.options@ == default_options(),
            ctx.callbacks == callbacks,
            ctx.features == features,
            ctx.order == order,
            ctx.args == args,
            ctx.phase == Phase::Created,
    {
        InitContext {
            options: CmdlineOptions::default(),
            callbacks,
            features,
            order,
            args,
            phase: Phase::Created,
        }
    }

    /// Plans the mount of the root of the options.
    pub fn mount_root(&self) -> (r: Result<Vec<Action>, Error>)
        ensures
            match root_mount(self.options@) {
                Ok(plan) => r matches Ok(actions) && plan_view(actions@) == plan,
                Err(e) => r matches Err(x) && x@ == e,
            },
    {
        let device = match &self.options.root {
            Some(root) => Some(root.as_str()),
            None => None,
        };
        let fstype = match &self.options.rootfstype {
            Some(t) => Some(t.as_str()),
            None => None,
        };
        let flags = match &self.options.rootflags {
            Some(f) => Some(f.as_str()),
            None => None,
        };
        mount_root(device, fstype, self.options.rootfsflags, flags)
    }

    /// Goes on where the root is not verified: to the search for a USB
    /// device controller where the root comes over the gadget, and to the
    /// mount of the root where it does not.
    pub fn prepare_aux(&mut self) -> (r: Result<Vec<Action>, Error>)
        ensures
            final(self).same_setting(old(self)),
            final(self).options == old(self).options,
            aux_prepared(old(self).options@, old(self).features, r, final(self).phase),
            r is Err ==> final(self).phase == Phase::Aborted,
    {
        self.phase = Phase::Aborted;
        if self.features.usb9pfs {
            match prepare_9pfs_gadget(&self.options)? {
                Some(search) => {
                    self.phase = Phase::AwaitUdc;
                    return Ok(search);
                },
                None => {},
            }
        }
        let plan = self.mount_root()?;
        self.phase = Phase::AwaitRootMount;
        Ok(plan)
    }

    /// Goes on once a USB device controller was looked for: the gadget is set
    /// up on it, and then the root is mounted.
    pub fn prepare_gadget(&mut self, udc: Option<&[u8]>) -> (r: Result<Vec<Action>, Error>)
        ensures
            final(self).same_setting(old(self)),
            final(self).options == old(self).options,
            gadget_set_up(old(self).options@, udc.deep_view(), r, final(self).phase),
            r is Err ==> final(self).phase == Phase::Aborted,
    {
        self.phase = Phase::Aborted;
        let name = match udc {
            Some(name) => name,
            None => {
                return Err(Error::NoUdc);
            },
        };
        proof {
            assert(name.deep_view() =~= name@);
        }
        let mut plan = match &self.options.root {
            Some(root) => setup_9pfs_gadget(root.as_str(), name),
            None => {
                return Err(Error::MissingGadgetRoot);
            },
        };
        extend_plan(&mut plan, self.mount_root()?);
        self.phase = Phase::AwaitRootMount;
        Ok(plan)
    }

    /// Plans the change of the root.
    pub fn switch_root(&self) -> (plan: Vec<Action>)
        ensures
            plan_view(plan@) == switch_root_plan(self.options@),
    {
        let mut plan: Vec<Action> = Vec::new();
        if self.options.cleanup {
            plan.push(Action::UnlinkSelf);
        }
        let ghost unlink = plan_view(plan@);
        extend_plan(&mut plan, mount_move_special(self.options.cleanup));
        let ghost moved = plan_view(plan@);
        plan.push(Action::Chdir { dir: "/root".to_owned() });
        plan.push(Action::Chroot { dir: ".".to_owned() });
        plan.push(Action::Chdir { dir: "/".to_owned() });
        proof {
            assert(unlink =~= if self.options.cleanup {
                seq![ActionView::UnlinkSelf]
            } else {
                Seq::<ActionView>::empty()
            });
            assert(plan_view(plan@) =~= moved + seq![
                ActionView::Chdir { dir: "/root"@ },
                ActionView::Chroot { dir: "."@ },
                ActionView::Chdir { dir: "/"@ },
            ]);
        }
        plan
    }

    /// Plans the start of the init: with its own path and the arguments of
    /// this program. An argument with a NUL byte cannot be passed on.
    pub fn start_init(&self) -> (r: Result<Action, Error>)
        ensures
            if has_nul(init_argv(self.options@, self.args.deep_view())) {
                r matches Err(e) && e@ == ErrorView::NulInArgument
            } else {
                r matches Ok(action) && action@ == (ActionView::Exec {
                    argv: init_argv(self.options@, self.args.deep_view()),
                })
            },
    {
        let ghost wanted = init_argv(self.options@, self.args.deep_view());
        let mut argv: Vec<Vec<u8>> = Vec::new();
        let init = self.options.init.as_str().as_bytes_vec();
        if holds_nul(init.as_slice()) {
            proof {
                assert(wanted[0].contains(0u8));
            }
            return Err(Error::NulInArgument);
        }
        proof {
            assert(init.deep_view() =~= init@);
        }
        argv.push(init);
        proof {
            assert(argv.deep_view() =~= wanted.take(1));
        }
        let mut i: usize = 0;
        while i < self.args.len()
            invariant
                i <= self.args.len(),
                wanted == init_argv(self.options@, self.args.deep_view()),
                argv.deep_view() == wanted.take(i + 1),
                forall|k: int| 0 <= k < i + 1 ==> !(#[trigger] wanted[k]).contains(0u8),
            decreases self.args.len() - i,
        {
            let arg = &self.args[i];
            proof {
                assert(wanted[i + 1] == self.args.deep_view()[i as int]);
                assert(arg.deep_view() =~= arg@);
            }
            if holds_nul(arg.as_slice()) {
                proof {
                    assert(wanted[i + 1].contains(0u8));
                }
                return Err(Error::NulInArgument);
            }
            let ghost before = argv.deep_view();
            let copy = arg.clone();
            proof {
                assert(copy.deep_view() =~= arg@);
            }
            argv.push(copy);
            proof {
                assert(argv.deep_view() =~= before.push(arg@));
                assert(wanted.take(i + 2) =~= wanted.take(i + 1).push(wanted[i + 1]));
            }
            i += 1;
        }
        proof {
            assert(wanted.take(self.args.len() + 1) =~= wanted);
        }
        Ok(Action::Exec { argv })
    }

    /// Begins the end of the boot: asks for the change of the root. The init
    /// is started once the root is changed.
    pub fn finish(&mut self) -> (plan: Vec<Action>)
        ensures
            final(self).same_setting(old(self)),
            final(self).options == old(self).options,
            plan_view(plan@) == switch_root_plan(old(self).options@),
            final(self).phase == Phase::AwaitSwitchRoot,
    {
        self.phase = Phase::AwaitSwitchRoot;
        self.switch_root()
    }
}

impl<
    C: Fn(&str, Option<&str>) -> Result<(), Error>,
    H: Fn(&mut CmdlineOptions) -> Result<(), Error>,
> InitContext<C, H> {
    /// What reading the command line and calling the hooks after it come to:
    /// the outcome `r` and the options `after` for the options `before`. A
    /// line that cannot be read leaves the options as they are and gives its
    /// error; no hook is called then. Otherwise the hooks after the setup are
    /// called with the options of the line; `states` holds the options before,
    /// between and after their calls.
    pub open spec fn set_up(
        callbacks: InitContextCallbacks<C, H>,
        before: CmdlineOptions,
        cmdline: Seq<char>,
        table: Result<Seq<char>, Seq<char>>,
        r: Result<(), Error>,
        states: Seq<CmdlineOptions>,
        after: CmdlineOptions,
    ) -> bool {
        exists|read: Result<CmdlineOptions, Error>| #[trigger]
            cmdline_read(callbacks.cmdline_cb@, cmdline, table, read) && match read {
                Ok(options) => hooks_chain(callbacks.post_setup_cb@.len(), states, r)
                    && states.first() == options && states.last() == after,
                Err(e) => r == Err::<(), Error>(e) && after == before && states.len() == 1,
            }
    }

    /// Reads the command line into the options and calls the hooks that
    /// follow it, each with the options as the one before has left them.
    pub fn setup(&mut self, cmdline: &str, table: Result<&str, &str>) -> (r: Result<(), Error>)
        requires
            old(self).wf(),
        ensures
            final(self).same_setting(old(self)),
            final(self).phase == old(self).phase,
            exists|states: Seq<CmdlineOptions>|
                #[trigger]
                Self::set_up(
                    old(self).callbacks,
                    old(self).options,
                    cmdline@,
                    table_view(table),
                    r,
                    states,
                    final(self).options,
                ) && forall|j: int|
                    #![trigger states[j]]
                    0 <= j < states.len() - 1 ==> exists|o: &mut CmdlineOptions|
                        *o == states[j] && *final(o) == states[j + 1] && exists|
                            answer: Result<(), Error>,
                        |
                            #[trigger] call_ensures(
                                old(self).callbacks.post_setup_cb@[j],
                                (o,),
                                answer,
                            ) && answer_fits(j, states.len() - 1, answer, r),
    {
        let read = parse_cmdline(cmdline, table, self.callbacks.cmdline_cb.as_slice());
        match read {
            Ok(options) => {
                self.options = options;
                let r = run_hooks(self.callbacks.post_setup_cb.as_slice(), &mut self.options);
                proof {
                    let hooks = self.callbacks.post_setup_cb@;
                    let states = choose|states: Seq<CmdlineOptions>|
                        #![trigger hooks_chain(hooks.len(), states, r)]
                        hooks_chain(hooks.len(), states, r) && states.first() == options
                            && states.last() == self.options && forall|j: int|
                            #![trigger states[j]]
                            0 <= j < states.len() - 1 ==> exists|o: &mut CmdlineOptions|
                                *o == states[j] && *final(o) == states[j + 1] && exists|
                                    answer: Result<(), Error>,
                                |
                                    #[trigger] call_ensures(hooks[j], (o,), answer)
                                        && answer_fits(j, states.len() - 1, answer, r);
                    assert(Self::set_up(
                        old(self).callbacks,
                        old(self).options,
                        cmdline@,
                        table_view(table),
                        r,
                        states,
                        self.options,
                    ));
                }
                r
            },
            Err(e) => {
                proof {
                    assert(Self::set_up(
                        old(self).callbacks,
                        old(self).options,
                        cmdline@,
                        table_view(table),
                        Err::<(), Error>(e),
                        seq![self.options],
                        self.options,
                    ));
                }
                Err(e)
            },
        }
    }

    /// Begins the preparation of the root once the options are read.
    fn begin_preparation(&mut self) -> (r: Result<Vec<Action>, Error>)
        requires
            old(self).phase == Phase::Aborted,
        ensures
            final(self).same_setting(old(self)),
            final(self).options == old(self).options,
            preparation_begins(old(self).options@, old(self).features, r, final(self).phase),
            r is Err ==> final(self).phase == Phase::Aborted,
            r is Ok ==> 3 <= rank(final(self).phase) <= 9,
    {
        if self.features.dmverity {
            self.phase = Phase::Verity { stage: VerityStage::Probing };
            return Ok(probe_dmverity());
        }
        self.prepare_aux()
    }

    /// Goes on to the change of the root, after the actions `before`.
    fn hand_off(&mut self, before: Vec<Action>) -> (actions: Vec<Action>)
        ensures
            final(self).same_setting(old(self)),
            final(self).options == old(self).options,
            plan_view(actions@) == plan_view(before@) + switch_root_plan(old(self).options@),
            final(self).phase == Phase::AwaitSwitchRoot,
    {
        let mut actions = before;
        extend_plan(&mut actions, self.finish());
        actions
    }

    /// What a step comes to once the command line is there: the options are
    /// read and the hooks are called, with the outcome `done`; where that
    /// fails, the boot ends with the error; otherwise the preparation of the
    /// root begins for the options that the hooks have left.
    pub open spec fn after_setup(
        before: CmdlineOptions,
        cmdline: Seq<char>,
        table: Result<Seq<char>, Seq<char>>,
        done: Result<(), Error>,
        states: Seq<CmdlineOptions>,
        r: Result<Vec<Action>, Error>,
        after: &Self,
    ) -> bool {
        Self::set_up(after.callbacks, before, cmdline, table, done, states, after.options)
            && match done {
            Ok(_) => preparation_begins(after.options@, after.features, r, after.phase),
            Err(e) => r == Err::<Vec<Action>, Error>(e),
        }
    }

    /// What a step comes to once the verified device has taken its step
    /// `step` and left the options `o`: its actions are passed on; where the
    /// root is not to be verified the boot goes on as without a verified
    /// device; once the verified device is in service its mount follows.
    pub open spec fn after_verity_step(
        step: Result<VerityStep, Error>,
        o: OptionsView,
        features: Features,
        r: Result<Vec<Action>, Error>,
        after: &Self,
    ) -> bool {
        &&& after.options@ == o
        &&& match step {
            Err(e) => r == Err::<Vec<Action>, Error>(e),
            Ok(VerityStep::Ask { actions, stage }) => r == Ok::<Vec<Action>, Error>(actions)
                && after.phase == (Phase::Verity { stage }),
            Ok(VerityStep::NotApplicable) => aux_prepared(o, features, r, after.phase),
            Ok(VerityStep::Handled) => match root_mount(o) {
                Ok(plan) => r matches Ok(actions) && plan_view(actions@) == plan && after.phase
                    == Phase::AwaitRootMount,
                Err(e) => r matches Err(x) && x@ == e,
            },
        }
    }

    /// The hooks that a step calls in the phase of `before`: those after the
    /// mount of the root once the root is mounted, and those after the setup
    /// in every phase before.
    pub open spec fn hooks_due(before: &Self) -> Seq<H> {
        match before.phase {
            Phase::AwaitRootMount => before.callbacks.post_root_mount_cb@,
            _ => before.callbacks.post_setup_cb@,
        }
    }

    /// What one step of the boot comes to: the outcome `r` and the boot
    /// `after` it, for the boot `before` and the event that is reported.
    /// `done` is the outcome of the hooks that the step has called, and
    /// `states` holds the options before, between and after their calls; a
    /// step that calls no hooks has one such state.
    ///
    /// A failure that is reported ends the boot with its error. Otherwise each
    /// phase waits for one kind of event and goes on as follows; any other
    /// event ends the boot.
    ///  - At the start, `/dev`, `/sys` and `/proc` are mounted, the log is set
    ///    up and the command line is read.
    ///  - With the command line, the table of network parameters is read first
    ///    where the line needs it. Then the options are read, the hooks after
    ///    the setup are called, and the preparation of the root begins.
    ///  - The verified device takes its steps.
    ///  - With the USB device controller, the gadget is set up and the root
    ///    is mounted.
    ///  - Once the root is mounted, the hooks after the mount are called.
    ///    Then `/run` is prepared and the program for the shutdown is looked
    ///    for, or, without that part, the root is changed.
    ///  - With the answer about the shutdown, what it needs is prepared and
    ///    the root is changed.
    ///  - Once the root is changed, the init is started.
    pub open spec fn transition(
        before: &Self,
        event: Event,
        done: Result<(), Error>,
        states: Seq<CmdlineOptions>,
        r: Result<Vec<Action>, Error>,
        after: &Self,
    ) -> bool {
        match (before.phase, event) {
            (_, Event::Failed { error }) => states.len() == 1 && r == Err::<Vec<Action>, Error>(
                error,
            ) && after.options == before.options,
            (Phase::Created, Event::Start) => r matches Ok(actions) && plan_view(actions@)
                == start_plan() && after.phase == Phase::AwaitCmdline && after.options
                == before.options && states.len() == 1,
            (Phase::AwaitCmdline, Event::Text { text }) => if needs_table(text@) {
                r matches Ok(actions) && plan_view(actions@) == seq![
                    ActionView::ReadFile { path: NETWORK_TABLE_PATH@ },
                ] && after.phase == (Phase::AwaitNetworkTable { cmdline: text }) && after.options
                    == before.options && states.len() == 1
            } else {
                Self::after_setup(
                    before.options,
                    text@,
                    Err(Seq::empty()),
                    done,
                    states,
                    r,
                    after,
                )
            },
            (Phase::AwaitNetworkTable { cmdline }, Event::Text { text }) => Self::after_setup(
                before.options,
                cmdline@,
                Ok(text@),
                done,
                states,
                r,
                after,
            ),
            (Phase::Verity { stage }, event) => states.len() == 1 && exists|
                step: Result<VerityStep, Error>,
                o: OptionsView,
            |
                #![trigger verity_transition(stage, event, before.options@, before.order, step, o)]
                verity_transition(stage, event, before.options@, before.order, step, o)
                    && Self::after_verity_step(step, o, before.features, r, after),
            (Phase::AwaitUdc, Event::Entry { name }) => gadget_set_up(
                before.options@,
                name.deep_view(),
                r,
                after.phase,
            ) && after.options == before.options && states.len() == 1,
            (Phase::AwaitRootMount, Event::Done) => hooks_chain(
                before.callbacks.post_root_mount_cb@.len(),
                states,
                done,
            ) && states.first() == before.options && states.last() == after.options
                && match done {
                Ok(_) => root_mounted(after.options@, before.features, r, after.phase),
                Err(e) => r == Err::<Vec<Action>, Error>(e),
            },
            (Phase::AwaitShutdownProbe, Event::Present { present }) => {
                let o = OptionsView {
                    cleanup: before.options@.cleanup && !present,
                    ..before.options@
                };
                &&& states.len() == 1
                &&& after.options@ == o
                &&& r matches Ok(actions) && plan_view(actions@) == shutdown_plan(present)
                    + switch_root_plan(o)
                &&& after.phase == Phase::AwaitSwitchRoot
            },
            (Phase::AwaitSwitchRoot, Event::Done) => init_started(
                before.options@,
                before.args.deep_view(),
                r,
                after.phase,
            ) && after.options == before.options && states.len() == 1,
            _ => r matches Err(e) && e@ == ErrorView::OutOfOrder && after.options
                == before.options && states.len() == 1,
        }
    }

    /// Takes the boot one step further. `event` reports how the actions went
    /// that the step before has asked for; the first step is taken with
    /// `Event::Start`. The outcome is the list of actions to do next, in their
    /// order, or the error that ends the boot.
    ///
    /// The phases follow each other in one order: every step moves the boot
    /// to a later phase, and a boot that has failed stays failed. Where the
    /// step calls hooks, each hook is called with the options as the one
    /// before has left them, up to the first that fails.
    pub fn run(&mut self, event: Event) -> (r: Result<Vec<Action>, Error>)
        requires
            old(self).wf(),
        ensures
            final(self).wf(),
            final(self).same_setting(old(self)),
            r is Err ==> final(self).phase == Phase::Aborted,
            rank(final(self).phase) > rank(old(self).phase) || old(self).phase == Phase::Aborted,
            exists|done: Result<(), Error>, states: Seq<CmdlineOptions>|
                #![trigger Self::transition(old(self), event, done, states, r, final(self))]
                Self::transition(old(self), event, done, states, r, final(self)) && forall|
                    j: int,
                |
                    #![trigger states[j]]
                    0 <= j < states.len() - 1 ==> exists|o: &mut CmdlineOptions|
                        *o == states[j] && *final(o) == states[j + 1] && exists|
                            answer: Result<(), Error>,
                        |
                            #[trigger] call_ensures(Self::hooks_due(old(self))[j], (o,), answer)
                                && answer_fits(j, states.len() - 1, answer, done),
    {
        let mut phase = Phase::Aborted;
        std::mem::swap(&mut self.phase, &mut phase);
        let ghost none = Ok::<(), Error>(());
        let ghost only = seq![self.options];
        match (phase, event) {
            (_, Event::Failed { error }) => {
                let r = Err(error);
                proof {
                    assert(Self::transition(old(self), event, none, only, r, self));
                }
                r
            },
            (Phase::Created, Event::Start) => {
                let mut actions = mount_special();
                let ghost mounted = plan_view(actions@);
                actions.push(Action::SetupLog);
                actions.push(Action::ReadFile { path: CMDLINE_PATH.to_owned() });
                proof {
                    assert(plan_view(actions@) =~= mounted + seq![
                        ActionView::SetupLog,
                        ActionView::ReadFile { path: CMDLINE_PATH@ },
                    ]);
                }
                self.phase = Phase::AwaitCmdline;
                let r = Ok(actions);
                proof {
                    assert(Self::transition(old(self), event, none, only, r, self));
                }
                r
            },
            (Phase::AwaitCmdline, Event::Text { text }) => {
                if CmdlineOptions::needs_network_table(text.as_str()) {
                    let mut actions: Vec<Action> = Vec::new();
                    actions.push(Action::ReadFile { path: NETWORK_TABLE_PATH.to_owned() });
                    proof {
                        assert(plan_view(actions@) =~= seq![
                            ActionView::ReadFile { path: NETWORK_TABLE_PATH@ },
                        ]);
                    }
                    self.phase = Phase::AwaitNetworkTable { cmdline: text };
                    let r = Ok(actions);
                    proof {
                        assert(Self::transition(old(self), event, none, only, r, self));
                    }
                    return r;
                }
                proof {
                    reveal_strlit("");
                    assert(""@ =~= Seq::<char>::empty());
                    assert(table_view(Err("")) == Err::<Seq<char>, Seq<char>>(Seq::empty()));
                }
                let r = self.set_up_and_prepare(text.as_str(), Err(""));
                proof {
                    assert(Self::hooks_due(old(self)) == self.callbacks.post_setup_cb@);
                    let (done, states) = choose|
                        done: Result<(), Error>,
                        states: Seq<CmdlineOptions>,
                    |
                        #[trigger]
                        Self::after_setup(
                            old(self).options,
                            text@,
                            Err(Seq::empty()),
                            done,
                            states,
                            r,
                            self,
                        )
                            && forall|j: int|
                            #![trigger states[j]]
                            0 <= j < states.len() - 1 ==> exists|o: &mut CmdlineOptions|
                                *o == states[j] && *final(o) == states[j + 1] && exists|
                                    answer: Result<(), Error>,
                                |
                                    #[trigger] call_ensures(
                                        self.callbacks.post_setup_cb@[j],
                                        (o,),
                                        answer,
                                    ) && answer_fits(j, states.len() - 1, answer, done);
                    assert(Self::transition(old(self), event, done, states, r, self));
                }
                r
            },
            (Phase::AwaitNetworkTable { cmdline }, Event::Text { text }) => {
                let r = self.set_up_and_prepare(cmdline.as_str(), Ok(text.as_str()));
                proof {
                    assert(Self::hooks_due(old(self)) == self.callbacks.post_setup_cb@);
                    let (done, states) = choose|
                        done: Result<(), Error>,
                        states: Seq<CmdlineOptions>,
                    |
                        #[trigger]
                        Self::after_setup(
                            old(self).options,
                            cmdline@,
                            Ok(text@),
                            done,
                            states,
                            r,
                            self,
                        )
                            && forall|j: int|
                            #![trigger states[j]]
                            0 <= j < states.len() - 1 ==> exists|o: &mut CmdlineOptions|
                                *o == states[j] && *final(o) == states[j + 1] && exists|
                                    answer: Result<(), Error>,
                                |
                                    #[trigger] call_ensures(
                                        self.callbacks.post_setup_cb@[j],
                                        (o,),
                                        answer,
                                    ) && answer_fits(j, states.len() - 1, answer, done);
                    assert(Self::transition(old(self), event, done, states, r, self));
                }
                r
            },
            (Phase::Verity { stage }, event) => {
                let ghost before = self.options@;
                let step = prepare_dmverity(stage, event, &mut self.options, self.order);
                let ghost o = self.options@;
                let r = match step {
                    Err(e) => Err(e),
                    Ok(VerityStep::Ask { actions, stage }) => {
                        self.phase = Phase::Verity { stage };
                        Ok(actions)
                    },
                    Ok(VerityStep::NotApplicable) => self.prepare_aux(),
                    Ok(VerityStep::Handled) => match self.mount_root() {
                        Ok(actions) => {
                            self.phase = Phase::AwaitRootMount;
                            Ok(actions)
                        },
                        Err(e) => Err(e),
                    },
                };
                proof {
                    assert(Self::after_verity_step(step, o, self.features, r, self));
                    lemma_verity_stage_advances(stage, event, before, self.order, step, o);
                    assert(Self::transition(old(self), event, none, only, r, self));
                }
                r
            },
            (Phase::AwaitUdc, Event::Entry { name }) => {
                let r = match &name {
                    Some(udc) => {
                        proof {
                            assert(udc.deep_view() =~= udc@);
                        }
                        self.prepare_gadget(Some(udc.as_slice()))
                    },
                    None => self.prepare_gadget(None),
                };
                proof {
                    assert(Self::transition(old(self), event, none, only, r, self));
                }
                r
            },
            (Phase::AwaitRootMount, Event::Done) => {
                let done = run_hooks(
                    self.callbacks.post_root_mount_cb.as_slice(),
                    &mut self.options,
                );
                let ghost hooks = self.callbacks.post_root_mount_cb@;
                proof {
                    assert(Self::hooks_due(old(self)) == hooks);
                }
                let ghost states = choose|states: Seq<CmdlineOptions>|
                    #![trigger hooks_chain(hooks.len(), states, done)]
                    hooks_chain(hooks.len(), states, done) && states.first() == old(self).options
                        && states.last() == self.options && forall|j: int|
                        #![trigger states[j]]
                        0 <= j < states.len() - 1 ==> exists|o: &mut CmdlineOptions|
                            *o == states[j] && *final(o) == states[j + 1] && exists|
                                answer: Result<(), Error>,
                            |
                                #[trigger] call_ensures(hooks[j], (o,), answer) && answer_fits(
                                    j,
                                    states.len() - 1,
                                    answer,
                                    done,
                                );
                let r = match done {
                    Err(e) => Err(e),
                    Ok(_) => {
                        if self.features.systemd {
                            self.phase = Phase::AwaitShutdownProbe;
                            Ok(mount_systemd())
                        } else {
                            let actions = self.hand_off(Vec::new());
                            proof {
                                assert(plan_view(Seq::<Action>::empty()) + switch_root_plan(
                                    self.options@,
                                ) =~= switch_root_plan(self.options@));
                            }
                            Ok(actions)
                        }
                    },
                };
                proof {
                    assert(Self::transition(old(self), event, done, states, r, self));
                }
                r
            },
            (Phase::AwaitShutdownProbe, Event::Present { present }) => {
                let before = prepare_shutdown(&mut self.options, present);
                let r = Ok(self.hand_off(before));
                proof {
                    assert(Self::transition(old(self), event, none, only, r, self));
                }
                r
            },
            (Phase::AwaitSwitchRoot, Event::Done) => {
                let r = match self.start_init() {
                    Ok(exec) => {
                        let mut actions: Vec<Action> = Vec::new();
                        actions.push(exec);
                        proof {
                            assert(plan_view(actions@) =~= seq![exec@]);
                        }
                        self.phase = Phase::HandOff;
                        Ok(actions)
                    },
                    Err(e) => Err(e),
                };
                proof {
                    assert(Self::transition(old(self), event, none, only, r, self));
                }
                r
            },
            _ => {
                let r = Err(Error::OutOfOrder);
                proof {
                    assert(Self::transition(old(self), event, none, only, r, self));
                }
                r
            },
        }
    }

    /// Reads the options, calls the hooks and begins the preparation of the root.
    fn set_up_and_prepare(&mut self, cmdline: &str, table: Result<&str, &str>) -> (r: Result<
        Vec<Action>,
        Error,
    >)
        requires
            old(self).wf(),
            old(self).phase == Phase::Aborted,
        ensures
            final(self).same_setting(old(self)),
            r is Err ==> final(self).phase == Phase::Aborted,
            r is Ok ==> 3 <= rank(final(self).phase) <= 9,
            exists|done: Result<(), Error>, states: Seq<CmdlineOptions>|
                #[trigger]
                Self::after_setup(
                    old(self).options,
                    cmdline@,
                    table_view(table),
                    done,
                    states,
                    r,
                    final(self),
                ) && forall|j: int|
                    #![trigger states[j]]
                    0 <= j < states.len() - 1 ==> exists|o: &mut CmdlineOptions|
                        *o == states[j] && *final(o) == states[j + 1] && exists|
                            answer: Result<(), Error>,
                        |
                            #[trigger] call_ensures(
                                final(self).callbacks.post_setup_cb@[j],
                                (o,),
                                answer,
                            ) && answer_fits(j, states.len() - 1, answer, done),
    {
        let done = self.setup(cmdline, table);
        let ghost set = *self;
        let ghost states = choose|states: Seq<CmdlineOptions>|
            #[trigger]
            Self::set_up(
                old(self).callbacks,
                old(self).options,
                cmdline@,
                table_view(table),
                done,
                states,
                set.options,
            ) && forall|j: int|
                #![trigger states[j]]
                0 <= j < states.len() - 1 ==> exists|o: &mut CmdlineOptions|
                    *o == states[j] && *final(o) == states[j + 1] && exists|
                        answer: Result<(), Error>,
                    |
                        #[trigger] call_ensures(
                            old(self).callbacks.post_setup_cb@[j],
                            (o,),
                            answer,
                        ) && answer_fits(j, states.len() - 1, answer, done);
        let r = match done {
            Ok(_) => self.begin_preparation(),
            Err(e) => Err(e),
        };
        proof {
            assert(Self::after_setup(
                old(self).options,
                cmdline@,
                table_view(table),
                done,
                states,
                r,
                self,
            ));
        }
        r
    }
}

/// A step of the verified device that asks for actions moves to a later stage.
pub proof fn lemma_verity_stage_advances(
    stage: VerityStage,
    event: Event,
    before: OptionsView,
    order: ByteOrder,
    step: Result<VerityStep, Error>,
    after: OptionsView,
)
    requires
        verity_transition(stage, event, before, order, step, after),
    ensures
        step matches Ok(VerityStep::Ask { stage: next, .. }) ==> rank(
            Phase::Verity { stage: next },
        ) > rank(Phase::Verity { stage }),
{
}

/// How much a message of the log matters.
#[derive(Debug, Clone, Copy, PartialEq, Eq, Structural)]
pub enum LogLevel {
    Error,
    Warn,
    Info,
    Debug,
    Trace,
}

/// The facility that the kernel's log files the messages of programs under,
/// in the place where a priority holds it.
pub const LOG_USER: u8 = 8;

/// The priority that the kernel's log knows a level by: the number of the
/// level together with the facility. A warning is 4 and an error 3; the
/// kernel's notice, 5, stands for no level, so that a note is 6; everything
/// finer is 7.
pub open spec fn kmsg_priority_of(level: LogLevel) -> u8 {
    match level {
        LogLevel::Error => 11,
        LogLevel::Warn => 12,
        LogLevel::Info => 14,
        LogLevel::Debug => 15,
        LogLevel::Trace => 15,
    }
}

/// A message as it is written to the kernel's log: the priority in angle
/// brackets, the name of this program, the message.
pub open spec fn kmsg_text(level: LogLevel, message: Seq<char>) -> Seq<char> {
    "<"@ + decimal_digits(kmsg_priority_of(level) as nat) + "> rsinit: "@ + message
}

/// The priority that the kernel's log knows a level by.
pub fn kmsg_priority(level: LogLevel) -> (priority: u8)
    ensures
        priority == kmsg_priority_of(level),
{
    let number: u8 = match level {
        LogLevel::Error => 3,
        LogLevel::Warn => 4,
        LogLevel::Info => 6,
        LogLevel::Debug => 7,
        LogLevel::Trace => 7,
    };
    LOG_USER + number
}

/// Writes a message as it goes to the kernel's log, in one piece.
pub fn kmsg_record(level: LogLevel, message: &str) -> (record: String)
    ensures
        record@ == kmsg_text(level, message@),
{
    let mut out: Vec<char> = Vec::new();
    append_str(&mut out, "<");
    let priority = to_decimal(kmsg_priority(level) as u64);
    append_chars(&mut out, priority.as_slice());
    append_str(&mut out, "> rsinit: ");
    append_str(&mut out, message);
    string_of(out.as_slice())
}

} // verus!
