//! What every stage shares: the errors of a boot, the actions that the boot
//! asks its caller for and the events that the caller reports, and the
//! bounded wait for a device node.

use vstd::prelude::*;
use crate::dmverity::{DM_DEV_CREATE_CMD, DM_DEV_SUSPEND_CMD, DM_TABLE_LOAD_CMD};
use crate::mount::MountFlags;
use crate::text::{append_chars, append_str, hex_digits, string_of, to_hex};

verus! {

/// Why a text is no unsigned decimal number of 64 bits.
#[derive(Debug, Clone, Copy, PartialEq, Eq, Structural)]
pub enum NumberError {
    /// The text is empty.
    Empty,
    /// A character is no decimal digit, or a sign stands alone.
    InvalidDigit,
    /// The number is larger than 64 bits hold.
    Overflow,
}

/// Why a boot cannot go on.
#[derive(Debug, PartialEq, Eq)]
pub enum Error {
    /// An option of the command line needs a value and came without one.
    MissingValue { key: String },
    /// The root is on NFS and the command line has no `nfsroot=`.
    MissingNfsroot,
    /// No root device is known when the root is to be mounted.
    NoRoot,
    /// The root is `9p` over the USB gadget and the command line has no `root=`.
    MissingGadgetRoot,
    /// The machine has no USB device controller for the gadget.
    NoUdc,
    /// The device node did not appear within the time allowed.
    Timeout,
    /// The system gave no random bytes.
    Random,
    /// The number of data sectors of the verity parameters is no number.
    DataSectors { text: String, reason: NumberError },
    /// The verity table is longer than the parameter area of the control message.
    TableTooLong,
    /// The reply to a control call is shorter than the header of a message.
    ShortReply,
    /// An argument for the next init holds a NUL byte.
    NulInArgument,
    /// The value of a bind mount has no comma between source and destination.
    BindFormat { value: String },
    /// The value of an NFS mount has no comma between source and destination.
    NfsFormat { value: String },
    /// The source of an NFS mount has no colon between host and path.
    NfsSource,
    /// The host of an NFS mount is no IP address.
    NfsHost,
    /// A step was asked for that the state of the boot does not allow.
    OutOfOrder,
    /// Something that the caller did for the boot failed; the text says what.
    Failed { message: String },
}

/// An `Error` with its texts as sequences of characters.
pub enum ErrorView {
    MissingValue { key: Seq<char> },
    MissingNfsroot,
    NoRoot,
    MissingGadgetRoot,
    NoUdc,
    Timeout,
    Random,
    DataSectors { text: Seq<char>, reason: NumberError },
    TableTooLong,
    ShortReply,
    NulInArgument,
    BindFormat { value: Seq<char> },
    NfsFormat { value: Seq<char> },
    NfsSource,
    NfsHost,
    OutOfOrder,
    Failed { message: Seq<char> },
}

impl DeepView for Error {
    type V = ErrorView;

    open spec fn deep_view(&self) -> ErrorView {
        match self {
            Error::MissingValue { key } => ErrorView::MissingValue { key: key@ },
            Error::MissingNfsroot => ErrorView::MissingNfsroot,
            Error::NoRoot => ErrorView::NoRoot,
            Error::MissingGadgetRoot => ErrorView::MissingGadgetRoot,
            Error::NoUdc => ErrorView::NoUdc,
            Error::Timeout => ErrorView::Timeout,
            Error::Random => ErrorView::Random,
            Error::DataSectors { text, reason } => ErrorView::DataSectors {
                text: text@,
                reason: *reason,
            },
            Error::TableTooLong => ErrorView::TableTooLong,
            Error::ShortReply => ErrorView::ShortReply,
            Error::NulInArgument => ErrorView::NulInArgument,
            Error::BindFormat { value } => ErrorView::BindFormat { value: value@ },
            Error::NfsFormat { value } => ErrorView::NfsFormat { value: value@ },
            Error::NfsSource => ErrorView::NfsSource,
            Error::NfsHost => ErrorView::NfsHost,
            Error::OutOfOrder => ErrorView::OutOfOrder,
            Error::Failed { message } => ErrorView::Failed { message: message@ },
        }
    }
}

impl View for Error {
    type V = ErrorView;

    open spec fn view(&self) -> ErrorView {
        self.deep_view()
    }
}

/// What `NumberError::message` says.
pub open spec fn number_error_text(reason: NumberError) -> Seq<char> {
    match reason {
        NumberError::Empty => "cannot parse integer from empty string"@,
        NumberError::InvalidDigit => "invalid digit found in string"@,
        NumberError::Overflow => "number too large to fit in target type"@,
    }
}

/// What `Error::message` says.
pub open spec fn error_text(e: ErrorView) -> Seq<char> {
    match e {
        ErrorView::MissingValue { key } => "Cmdline option '"@ + key
            + "' must have an argument!"@,
        ErrorView::MissingNfsroot => "Missing nfsroot command-line option!"@,
        ErrorView::NoRoot => "root= not found in /proc/cmdline"@,
        ErrorView::MissingGadgetRoot => "Missing root= for 9p!"@,
        ErrorView::NoUdc => "No UDC found to attach the 9pfs gadget"@,
        ErrorView::Timeout => "Timeout reached while waiting for the device"@,
        ErrorView::Random => "Getrandom failed"@,
        ErrorView::DataSectors { text, reason } => "Failed to parse 'VERITY_DATA_SECTORS="@ + text
            + ": "@ + number_error_text(reason),
        ErrorView::TableTooLong => "The dm-verity table does not fit the control message"@,
        ErrorView::ShortReply => "The reply of the device mapper is too short"@,
        ErrorView::NulInArgument => "An argument of init holds a NUL byte"@,
        ErrorView::BindFormat { value } =>
            "Bind mount option must be in the format '<source>,<destination>', got: "@ + value,
        ErrorView::NfsFormat { value } =>
            "NFS mount option must be in the format '<host>:<source>,<destination>', got: "@
            + value,
        ErrorView::NfsSource => "NFS source must be in the format '<host>:<path>'"@,
        ErrorView::NfsHost =>
            "NFS host must be a valid IP address as DNS lookup is not supported (yet)"@,
        ErrorView::OutOfOrder => "The boot is in no state for this step"@,
        ErrorView::Failed { message } => message,
    }
}

impl NumberError {
    /// The reason in words.
    pub fn message(&self) -> (text: &'static str)
        ensures
            text@ == number_error_text(*self),
    {
        match self {
            NumberError::Empty => "cannot parse integer from empty string",
            NumberError::InvalidDigit => "invalid digit found in string",
            NumberError::Overflow => "number too large to fit in target type",
        }
    }
}

impl Error {
    /// The error in words, as it is shown when the boot stops.
    pub fn message(&self) -> (text: String)
        ensures
            text@ == error_text(self@),
    {
        let mut out: Vec<char> = Vec::new();
        match self {
            Error::MissingValue { key } => {
                append_str(&mut out, "Cmdline option '");
                append_str(&mut out, key.as_str());
                append_str(&mut out, "' must have an argument!");
            },
            Error::MissingNfsroot => {
                append_str(&mut out, "Missing nfsroot command-line option!");
            },
            Error::NoRoot => {
                append_str(&mut out, "root= not found in /proc/cmdline");
            },
            Error::MissingGadgetRoot => {
                append_str(&mut out, "Missing root= for 9p!");
            },
            Error::NoUdc => {
                append_str(&mut out, "No UDC found to attach the 9pfs gadget");
            },
            Error::Timeout => {
                append_str(&mut out, "Timeout reached while waiting for the device");
            },
            Error::Random => {
                append_str(&mut out, "Getrandom failed");
            },
            Error::DataSectors { text, reason } => {
                append_str(&mut out, "Failed to parse 'VERITY_DATA_SECTORS=");
                append_str(&mut out, text.as_str());
                append_str(&mut out, ": ");
                append_str(&mut out, reason.message());
            },
            Error::TableTooLong => {
                append_str(&mut out, "The dm-verity table does not fit the control message");
            },
            Error::ShortReply => {
                append_str(&mut out, "The reply of the device mapper is too short");
            },
            Error::NulInArgument => {
                append_str(&mut out, "An argument of init holds a NUL byte");
            },
            Error::BindFormat { value } => {
                append_str(
                    &mut out,
                    "Bind mount option must be in the format '<source>,<destination>', got: ",
                );
                append_str(&mut out, value.as_str());
            },
            Error::NfsFormat { value } => {
                append_str(
                    &mut out,
                    "NFS mount option must be in the format '<host>:<source>,<destination>', got: ",
                );
                append_str(&mut out, value.as_str());
            },
            Error::NfsSource => {
                append_str(&mut out, "NFS source must be in the format '<host>:<path>'");
            },
            Error::NfsHost => {
                append_str(
                    &mut out,
                    "NFS host must be a valid IP address as DNS lookup is not supported (yet)",
                );
            },
            Error::OutOfOrder => {
                append_str(&mut out, "The boot is in no state for this step");
            },
            Error::Failed { message } => {
                append_str(&mut out, message.as_str());
            },
        }
        string_of(out.as_slice())
    }

    /// The error for something that the caller did and that failed.
    pub fn failed(message: &str) -> (e: Error)
        ensures
            e@ == (ErrorView::Failed { message: message@ }),
    {
        Error::Failed { message: message.to_owned() }
    }
}

/// How the machine goes down.
#[derive(Debug, Clone, Copy, PartialEq, Eq, Structural)]
pub enum RebootMode {
    /// Start the machine again.
    Autoboot,
    /// Stop the machine.
    Halt,
    /// Start the kernel that was loaded for it.
    Kexec,
    /// Switch the machine off.
    PowerOff,
}

/// One thing that the boot asks its caller to do to the system. The caller
/// does it and reports how it went; nothing here touches the system itself.
#[derive(Debug, PartialEq, Eq)]
pub enum Action {
    /// Create the directory unless it is there.
    Mkdir { dir: String },
    /// Mount a file system.
    Mount {
        source: Option<String>,
        target: String,
        fstype: Option<String>,
        flags: MountFlags,
        data: Option<String>,
    },
    /// Move a mount from one directory to another.
    MoveMount { from: String, to: String },
    /// Remove the directory, which must be empty.
    RemoveDir { dir: String },
    /// Wait until the device node is there, as `wait_for_device` rules.
    WaitForDevice { device: String },
    /// Read the file and report its text.
    ReadFile { path: String },
    /// Report whether the path exists.
    Probe { path: String },
    /// Send the log to the kernel's log.
    SetupLog,
    /// Open the control device of the device mapper.
    OpenControl,
    /// Make a control call of the device mapper and report the message as the
    /// kernel left it.
    Control { command: u8, message: Vec<u8> },
    /// Report the name of the first entry of the directory, if it has one.
    FirstEntry { dir: String },
    /// Write the bytes to the file.
    WriteFile { path: String, content: Vec<u8> },
    /// Make `link` a symbolic link to `original`.
    Symlink { original: String, link: String },
    /// Do nothing for so many milliseconds.
    Sleep { millis: u64 },
    /// Remove the file that this program was started from.
    UnlinkSelf,
    /// Change the working directory.
    Chdir { dir: String },
    /// Make the directory the root of the file system.
    Chroot { dir: String },
    /// Replace this program by the one that `argv` names and pass it `argv`.
    Exec { argv: Vec<Vec<u8>> },
    /// Unmount what is mounted on the directory.
    Umount { target: String },
    /// Bring the machine down.
    Reboot { mode: RebootMode },
}

/// An `Action` with its texts as sequences.
pub enum ActionView {
    Mkdir { dir: Seq<char> },
    Mount {
        source: Option<Seq<char>>,
        target: Seq<char>,
        fstype: Option<Seq<char>>,
        flags: MountFlags,
        data: Option<Seq<char>>,
    },
    MoveMount { from: Seq<char>, to: Seq<char> },
    RemoveDir { dir: Seq<char> },
    WaitForDevice { device: Seq<char> },
    ReadFile { path: Seq<char> },
    Probe { path: Seq<char> },
    SetupLog,
    OpenControl,
    Control { command: u8, message: Seq<u8> },
    FirstEntry { dir: Seq<char> },
    WriteFile { path: Seq<char>, content: Seq<u8> },
    Symlink { original: Seq<char>, link: Seq<char> },
    Sleep { millis: u64 },
    UnlinkSelf,
    Chdir { dir: Seq<char> },
    Chroot { dir: Seq<char> },
    Exec { argv: Seq<Seq<u8>> },
    Umount { target: Seq<char> },
    Reboot { mode: RebootMode },
}

impl DeepView for Action {
    type V = ActionView;

    open spec fn deep_view(&self) -> ActionView {
        match self {
            Action::Mkdir { dir } => ActionView::Mkdir { dir: dir@ },
            Action::Mount { source, target, fstype, flags, data } => ActionView::Mount {
                source: source.deep_view(),
                target: target@,
                fstype: fstype.deep_view(),
                flags: *flags,
                data: data.deep_view(),
            },
            Action::MoveMount { from, to } => ActionView::MoveMount { from: from@, to: to@ },
            Action::RemoveDir { dir } => ActionView::RemoveDir { dir: dir@ },
            Action::WaitForDevice { device } => ActionView::WaitForDevice { device: device@ },
            Action::ReadFile { path } => ActionView::ReadFile { path: path@ },
            Action::Probe { path } => ActionView::Probe { path: path@ },
            Action::SetupLog => ActionView::SetupLog,
            Action::OpenControl => ActionView::OpenControl,
            Action::Control { command, message } => ActionView::Control {
                command: *command,
                message: message@,
            },
            Action::FirstEntry { dir } => ActionView::FirstEntry { dir: dir@ },
            Action::WriteFile { path, content } => ActionView::WriteFile {
                path: path@,
                content: content@,
            },
            Action::Symlink { original, link } => ActionView::Symlink {
                original: original@,
                link: link@,
            },
            Action::Sleep { millis } => ActionView::Sleep { millis: *millis },
            Action::UnlinkSelf => ActionView::UnlinkSelf,
            Action::Chdir { dir } => ActionView::Chdir { dir: dir@ },
            Action::Chroot { dir } => ActionView::Chroot { dir: dir@ },
            Action::Exec { argv } => ActionView::Exec { argv: argv.deep_view() },
            Action::Umount { target } => ActionView::Umount { target: target@ },
            Action::Reboot { mode } => ActionView::Reboot { mode: *mode },
        }
    }
}

impl View for Action {
    type V = ActionView;

    open spec fn view(&self) -> ActionView {
        self.deep_view()
    }
}

/// The text, or nothing where there is none.
pub open spec fn text_or_empty(text: Option<Seq<char>>) -> Seq<char> {
    match text {
        Some(t) => t,
        None => Seq::empty(),
    }
}

/// What a failed control call of the device mapper is called by.
pub open spec fn control_failure(command: u8) -> Seq<char> {
    if command == DM_DEV_CREATE_CMD {
        "Failed to create dm device: "@
    } else if command == DM_TABLE_LOAD_CMD {
        "Failed to load dm table: "@
    } else if command == DM_DEV_SUSPEND_CMD {
        "Failed to suspend dm device: "@
    } else {
        Seq::empty()
    }
}

/// What is said when an action fails for the reason `reason`. A failed mount
/// is said with all that was asked of it; creating a directory, reading a
/// file, listing a directory, moving a mount, the calls of the device mapper,
/// unmounting and bringing the machine down are named; of any other action
/// the reason alone is said.
pub open spec fn failure_text(action: ActionView, reason: Seq<char>) -> Seq<char> {
    match action {
        ActionView::Mkdir { dir } => "Failed to create "@ + dir + ": "@ + reason,
        ActionView::Mount { source, target, fstype, flags, data } => "Failed to mount "@
            + text_or_empty(source) + " -> "@ + target + " as "@ + text_or_empty(fstype)
            + " with flags = 0x"@ + hex_digits(flags.bits as nat) + ", data = '"@ + text_or_empty(
            data,
        ) + "'): "@ + reason,
        ActionView::MoveMount { from, to } => "Failed to move mount "@ + from + " -> "@ + to
            + ": "@ + reason,
        ActionView::ReadFile { path } => "Failed to read "@ + path + ": "@ + reason,
        ActionView::WriteFile { path, .. } => "Failed to write to "@ + path + ": "@ + reason,
        ActionView::FirstEntry { dir } => "Failed to list "@ + dir + ": "@ + reason,
        ActionView::OpenControl => "Failed to open /dev/mapper/control: "@ + reason,
        ActionView::Control { command, .. } => control_failure(command) + reason,
        ActionView::Umount { target } => "Failed to unmount "@ + target + ": "@ + reason,
        ActionView::Reboot { .. } => "reboot failed: "@ + reason,
        _ => reason,
    }
}

/// Appends the text, or nothing where there is none.
fn append_text(out: &mut Vec<char>, text: &Option<String>)
    ensures
        final(out)@ == old(out)@ + text_or_empty(text.deep_view()),
{
    match text {
        Some(t) => append_str(out, t.as_str()),
        None => {},
    }
}

impl Action {
    /// The error of this action when it fails for the reason `reason`.
    pub fn failure(&self, reason: &str) -> (e: Error)
        ensures
            e@ == (ErrorView::Failed { message: failure_text(self@, reason@) }),
    {
        let mut out: Vec<char> = Vec::new();
        match self {
            Action::Mkdir { dir } => {
                append_str(&mut out, "Failed to create ");
                append_str(&mut out, dir.as_str());
                append_str(&mut out, ": ");
            },
            Action::Mount { source, target, fstype, flags, data } => {
                append_str(&mut out, "Failed to mount ");
                append_text(&mut out, source);
                append_str(&mut out, " -> ");
                append_str(&mut out, target.as_str());
                append_str(&mut out, " as ");
                append_text(&mut out, fstype);
                append_str(&mut out, " with flags = 0x");
                let digits = to_hex(flags.bits());
                append_chars(&mut out, digits.as_slice());
                append_str(&mut out, ", data = '");
                append_text(&mut out, data);
                append_str(&mut out, "'): ");
            },
            Action::MoveMount { from, to } => {
                append_str(&mut out, "Failed to move mount ");
                append_str(&mut out, from.as_str());
                append_str(&mut out, " -> ");
                append_str(&mut out, to.as_str());
                append_str(&mut out, ": ");
            },
            Action::ReadFile { path } => {
                append_str(&mut out, "Failed to read ");
                append_str(&mut out, path.as_str());
                append_str(&mut out, ": ");
            },
            Action::WriteFile { path, .. } => {
                append_str(&mut out, "Failed to write to ");
                append_str(&mut out, path.as_str());
                append_str(&mut out, ": ");
            },
            Action::FirstEntry { dir } => {
                append_str(&mut out, "Failed to list ");
                append_str(&mut out, dir.as_str());
                append_str(&mut out, ": ");
            },
            Action::OpenControl => {
                append_str(&mut out, "Failed to open /dev/mapper/control: ");
            },
            Action::Control { command, .. } => {
                if *command == DM_DEV_CREATE_CMD {
                    append_str(&mut out, "Failed to create dm device: ");
                } else if *command == DM_TABLE_LOAD_CMD {
                    append_str(&mut out, "Failed to load dm table: ");
                } else if *command == DM_DEV_SUSPEND_CMD {
                    append_str(&mut out, "Failed to suspend dm device: ");
                }
            },
            Action::Umount { target } => {
                append_str(&mut out, "Failed to unmount ");
                append_str(&mut out, target.as_str());
                append_str(&mut out, ": ");
            },
            Action::Reboot { .. } => {
                append_str(&mut out, "reboot failed: ");
            },
            _ => {},
        }
        append_str(&mut out, reason);
        Error::Failed { message: string_of(out.as_slice()) }
    }
}

/// What the caller reports of the actions that it was asked for.
#[derive(Debug, PartialEq, Eq)]
pub enum Event {
    /// Nothing was asked for yet: the boot begins.
    Start,
    /// All actions are done, and the last of them has nothing to tell.
    Done,
    /// An action failed, and those after it were not tried.
    Failed { error: Error },
    /// All actions are done, and this is the text of the file that the last
    /// of them read.
    Text { text: String },
    /// All actions are done, and the last of them found the path or did not.
    Present { present: bool },
    /// All actions are done, and this is the message of the last of them, a
    /// control call, as the kernel left it.
    Reply { message: Vec<u8> },
    /// All actions are done, and this is the name of the first entry of the
    /// directory that the last of them has listed, if the directory has one.
    Entry { name: Option<Vec<u8>> },
}

/// How many times the device node is looked for before the wait is given up.
pub const WAIT_ATTEMPTS: u32 = 1000;

/// How long the wait sleeps after each look that did not find the device node.
pub const WAIT_MILLIS: u64 = 5;

/// The wait for a device node: how many looks have not found it.
#[derive(Debug, Clone, Copy, PartialEq, Eq, Structural)]
pub struct DeviceWait {
    pub failed: u32,
}

/// What the wait for a device node does after a look.
#[derive(Debug, Clone, Copy, PartialEq, Eq, Structural)]
pub enum WaitStep {
    /// The device node is there.
    Ready,
    /// Sleep for so many milliseconds and look again.
    Retry { millis: u64 },
    /// Sleep for so many milliseconds and give up: the time is over.
    GiveUp { millis: u64 },
}

/// Whether a look that does not find the device node is the last one, after
/// `failed` looks that did not find it either.
pub open spec fn gives_up(failed: nat) -> bool {
    failed + 1 >= WAIT_ATTEMPTS
}

/// How many looks count as failed after one more, which never is more than
/// the wait allows.
pub open spec fn next_failed(failed: nat) -> nat {
    if gives_up(failed) {
        WAIT_ATTEMPTS as nat
    } else {
        failed + 1
    }
}

/// How many looks count as failed after `n` looks in a row from the beginning
/// of the wait, none of which found the device node.
pub open spec fn failed_after(n: nat) -> nat
    decreases n,
{
    if n == 0 {
        0
    } else {
        next_failed(failed_after((n - 1) as nat))
    }
}

/// The time in milliseconds that the wait was told to sleep so far.
pub open spec fn slept_millis(failed: nat) -> nat {
    failed * WAIT_MILLIS as nat
}

impl DeviceWait {
    /// A wait that has not looked yet.
    pub fn new() -> (wait: DeviceWait)
        ensures
            wait.failed == 0,
    {
        DeviceWait { failed: 0 }
    }
}

/// Decides how the wait for a device node goes on after a look. `present`
/// says whether the look found it. A look that finds it ends the wait. Every
/// other look is followed by a sleep of 5 milliseconds; the thousandth of
/// them gives up after its sleep.
pub fn wait_for_device(wait: &mut DeviceWait, present: bool) -> (step: WaitStep)
    ensures
        step == if present {
            WaitStep::Ready
        } else if gives_up(old(wait).failed as nat) {
            WaitStep::GiveUp { millis: WAIT_MILLIS }
        } else {
            WaitStep::Retry { millis: WAIT_MILLIS }
        },
        final(wait).failed == if present {
            old(wait).failed as nat
        } else {
            next_failed(old(wait).failed as nat)
        },
{
    if present {
        WaitStep::Ready
    } else if wait.failed >= WAIT_ATTEMPTS - 1 {
        wait.failed = WAIT_ATTEMPTS;
        WaitStep::GiveUp { millis: WAIT_MILLIS }
    } else {
        wait.failed = wait.failed + 1;
        WaitStep::Retry { millis: WAIT_MILLIS }
    }
}

/// What a step of the wait comes to for the one who waits: nothing yet where
/// the wait goes on, success where the device node is there, and the error
/// of a timeout where the wait was given up.
pub open spec fn wait_outcome_of(step: WaitStep) -> Option<Result<(), ErrorView>> {
    match step {
        WaitStep::Ready => Some(Ok(())),
        WaitStep::Retry { .. } => None,
        WaitStep::GiveUp { .. } => Some(Err(ErrorView::Timeout)),
    }
}

/// How long a step of the wait sleeps before anything else is done.
pub open spec fn wait_pause_of(step: WaitStep) -> u64 {
    match step {
        WaitStep::Ready => 0,
        WaitStep::Retry { millis } => millis,
        WaitStep::GiveUp { millis } => millis,
    }
}

impl WaitStep {
    /// How long to sleep before anything else is done, in milliseconds.
    pub fn pause(&self) -> (millis: u64)
        ensures
            millis == wait_pause_of(*self),
    {
        match self {
            WaitStep::Ready => 0,
            WaitStep::Retry { millis } => *millis,
            WaitStep::GiveUp { millis } => *millis,
        }
    }

    /// How the wait has ended, if it has: with the device node, or with the
    /// error of a timeout.
    pub fn outcome(&self) -> (r: Option<Result<(), Error>>)
        ensures
            match wait_outcome_of(*self) {
                None => r is None,
                Some(Ok(_)) => r matches Some(Ok(_)),
                Some(Err(e)) => r matches Some(Err(x)) && x@ == e,
            },
    {
        match self {
            WaitStep::Ready => Some(Ok(())),
            WaitStep::Retry { .. } => None,
            WaitStep::GiveUp { .. } => Some(Err(Error::Timeout)),
        }
    }
}

/// The wait is given up after the full time and not before. Of the looks in
/// a row that do not find the device node, counted from the beginning of the
/// wait, the thousandth is the first to give up; by the end of its sleep the
/// wait has slept 5000 milliseconds.
pub proof fn lemma_timeout_after_full_wait(n: nat)
    ensures
        failed_after(n) == if n < WAIT_ATTEMPTS {
            n
        } else {
            WAIT_ATTEMPTS as nat
        },
        gives_up(failed_after(n)) <==> n + 1 >= WAIT_ATTEMPTS,
        n + 1 == WAIT_ATTEMPTS ==> slept_millis(next_failed(failed_after(n))) == 5000,
    decreases n,
{
    if n > 0 {
        lemma_timeout_after_full_wait((n - 1) as nat);
    }
}

/// What is due in a list of actions that the caller was asked for.
#[derive(Debug, PartialEq, Eq)]
pub enum PlanStep {
    /// The action with this index is to be done next.
    Perform { index: usize },
    /// Nothing more is to be done, and this is to be reported.
    Report { event: Event },
}

/// What is due before the first of `len` actions is done: the first action,
/// or, where there is none, the report that all is done.
pub open spec fn plan_start_of(len: usize) -> PlanStep {
    if len == 0 {
        PlanStep::Report { event: Event::Done }
    } else {
        PlanStep::Perform { index: 0 }
    }
}

/// What is due once the action with the index `index` of `len` actions has
/// had the outcome `outcome`. A failure is reported, and no action after it
/// is done. After a success the next action is due; the success of the last
/// action is reported with what the action has to tell.
pub open spec fn plan_next_of(len: usize, index: usize, outcome: Result<Event, Error>) -> PlanStep {
    match outcome {
        Err(error) => PlanStep::Report { event: Event::Failed { error } },
        Ok(event) => if index + 1 < len {
            PlanStep::Perform { index: (index + 1) as usize }
        } else {
            PlanStep::Report { event }
        },
    }
}

/// Tells what is due before the first of `len` actions is done.
pub fn plan_start(len: usize) -> (step: PlanStep)
    ensures
        step == plan_start_of(len),
{
    if len == 0 {
        PlanStep::Report { event: Event::Done }
    } else {
        PlanStep::Perform { index: 0 }
    }
}

/// Tells what is due once the action with the index `index` of `len` actions
/// has had the outcome `outcome`.
pub fn plan_next(len: usize, index: usize, outcome: Result<Event, Error>) -> (step: PlanStep)
    ensures
        step == plan_next_of(len, index, outcome),
{
    match outcome {
        Err(error) => PlanStep::Report { event: Event::Failed { error } },
        Ok(event) => if len > 0 && index < len - 1 {
            PlanStep::Perform { index: index + 1 }
        } else {
            PlanStep::Report { event }
        },
    }
}

/// Nothing follows an action that has failed, and the actions are done in
/// their order: an action is due only after the success of the one before it,
/// and the first only at the start.
pub proof fn lemma_nothing_follows_failure(len: usize, index: usize, outcome: Result<Event, Error>)
    ensures
        outcome matches Err(error) ==> plan_next_of(len, index, outcome) == (PlanStep::Report {
            event: Event::Failed { error },
        }),
        plan_next_of(len, index, outcome) matches PlanStep::Perform { index: next } ==> outcome
            is Ok && next == index + 1 && next < len,
        plan_start_of(len) matches PlanStep::Perform { index: first } ==> first == 0 && len > 0,
{
}

} // verus!
