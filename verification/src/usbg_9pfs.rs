//! A root that comes over 9p from the host at the other end of a USB cable:
//! when the gadget that carries it is needed, and how it is set up through
//! configfs.

use vstd::prelude::*;
use vstd::utf8::encode_utf8;
use crate::cmdline::{CmdlineOptions, OptionsView};
use crate::mount::{extend_plan, mount_apivfs, mount_apivfs_plan, plan_view};
use crate::text::{append_str, chars_of, contains_chars, contains_run, same_str, string_of};
use crate::util::{Action, ActionView, Error, ErrorView};

verus! {

/// The mount option that asks for the USB gadget as the transport of 9p.
pub const TRANS_USBG: &'static str = "trans=usbg";

/// The directory that lists the USB device controllers of the machine.
pub const UDC_DIR: &'static str = "/sys/class/udc";

/// How long the host is given to find the gadget, in milliseconds.
pub const GADGET_SETTLE_MILLIS: u64 = 1000;

/// Whether the root comes over the USB gadget: the file system is `9p` and
/// its mount options hold `trans=usbg`.
pub open spec fn gadget_applies(o: OptionsView) -> bool {
    o.rootfstype == Some("9p"@) && o.rootflags is Some && contains_run(
        o.rootflags->Some_0,
        TRANS_USBG@,
    )
}

/// Decides whether the USB gadget is to be set up for the root. Where the
/// root does not come over the gadget there is nothing to do and no plan.
/// Where it does, the first thing to do is to look for a USB device
/// controller; without `root=` there is no device to set the gadget up for,
/// and the boot cannot go on.
pub fn prepare_9pfs_gadget(options: &CmdlineOptions) -> (r: Result<Option<Vec<Action>>, Error>)
    ensures
        if gadget_applies(options@) {
            match options@.root {
                Some(_) => r matches Ok(Some(actions)) && plan_view(actions@) == seq![
                    ActionView::FirstEntry { dir: UDC_DIR@ },
                ],
                None => r matches Err(e) && e@ == ErrorView::MissingGadgetRoot,
            }
        } else {
            r matches Ok(None)
        },
{
    let over_9p = match &options.rootfstype {
        Some(fstype) => same_str(fstype.as_str(), "9p"),
        None => false,
    };
    let over_gadget = match &options.rootflags {
        Some(flags) => {
            let flags = chars_of(flags.as_str());
            let wanted = chars_of(TRANS_USBG);
            contains_chars(flags.as_slice(), wanted.as_slice())
        },
        None => false,
    };
    if !(over_9p && over_gadget) {
        return Ok(None);
    }
    if options.root.is_none() {
        return Err(Error::MissingGadgetRoot);
    }
    let mut actions: Vec<Action> = Vec::new();
    actions.push(Action::FirstEntry { dir: UDC_DIR.to_owned() });
    proof {
        assert(plan_view(actions@) =~= seq![ActionView::FirstEntry { dir: UDC_DIR@ }]);
    }
    Ok(Some(actions))
}

/// The writing of a text to a file.
pub open spec fn write_text(path: Seq<char>, text: Seq<char>) -> ActionView {
    ActionView::WriteFile { path, content: encode_utf8(text) }
}

/// The directory of the function of the gadget for a device.
pub open spec fn gadget_function(device: Seq<char>) -> Seq<char> {
    "/sys/kernel/config/usb_gadget/9pfs/functions/usb9pfs."@ + device
}

/// The place of the function of the gadget for a device in the configuration.
pub open spec fn gadget_link(device: Seq<char>) -> Seq<char> {
    "/sys/kernel/config/usb_gadget/9pfs/configs/c.1/usb9pfs."@ + device
}

/// How the gadget is set up for a device on the USB device controller `udc`:
/// configfs is mounted; the gadget is created with its vendor and product
/// numbers and its English strings; one configuration is created, and the
/// 9p function for the device is created and put into it; then the gadget is
/// bound to the controller, and the host is given a second to find it.
pub open spec fn gadget_plan(device: Seq<char>, udc: Seq<u8>) -> Seq<ActionView> {
    mount_apivfs_plan("/sys/kernel/config"@, "configfs"@) + seq![
        ActionView::Mkdir { dir: "/sys/kernel/config/usb_gadget/9pfs"@ },
        write_text("/sys/kernel/config/usb_gadget/9pfs/idVendor"@, "0x1d6b"@),
        write_text("/sys/kernel/config/usb_gadget/9pfs/idProduct"@, "0x0109"@),
        ActionView::Mkdir { dir: "/sys/kernel/config/usb_gadget/9pfs/strings/0x409"@ },
        write_text(
            "/sys/kernel/config/usb_gadget/9pfs/strings/0x409/serialnumber"@,
            "01234567"@,
        ),
        write_text(
            "/sys/kernel/config/usb_gadget/9pfs/strings/0x409/manufacturer"@,
            "Pengutronix e.K."@,
        ),
        write_text("/sys/kernel/config/usb_gadget/9pfs/strings/0x409/product"@, "9PFS Gadget"@),
        ActionView::Mkdir { dir: "/sys/kernel/config/usb_gadget/9pfs/configs/c.1"@ },
        ActionView::Mkdir { dir: "/sys/kernel/config/usb_gadget/9pfs/configs/c.1/strings/0x409"@ },
        ActionView::Mkdir { dir: gadget_function(device) },
        ActionView::Symlink { original: gadget_function(device), link: gadget_link(device) },
        ActionView::WriteFile { path: "/sys/kernel/config/usb_gadget/9pfs/UDC"@, content: udc },
        ActionView::Sleep { millis: GADGET_SETTLE_MILLIS },
    ]
}

/// The directory with the given path.
fn mkdir(dir: &str) -> (action: Action)
    ensures
        action@ == (ActionView::Mkdir { dir: dir@ }),
{
    Action::Mkdir { dir: dir.to_owned() }
}

/// The writing of a text to the file with the given path.
fn write(path: &str, text: &str) -> (action: Action)
    ensures
        action@ == write_text(path@, text@),
{
    Action::WriteFile { path: path.to_owned(), content: text.as_bytes_vec() }
}

/// A path that ends in the name of a device.
fn with_device(prefix: &str, device: &str) -> (path: String)
    ensures
        path@ == prefix@ + device@,
{
    let mut out: Vec<char> = Vec::new();
    append_str(&mut out, prefix);
    append_str(&mut out, device);
    string_of(out.as_slice())
}

/// Plans the setup of the gadget for a device on a USB device controller.
pub fn setup_9pfs_gadget(device: &str, udc: &[u8]) -> (plan: Vec<Action>)
    ensures
        plan_view(plan@) == gadget_plan(device@, udc@),
{
    let function = with_device("/sys/kernel/config/usb_gadget/9pfs/functions/usb9pfs.", device);
    let link = with_device("/sys/kernel/config/usb_gadget/9pfs/configs/c.1/usb9pfs.", device);
    let mut content: Vec<u8> = Vec::new();
    let mut i: usize = 0;
    while i < udc.len()
        invariant
            i <= udc.len(),
            content@ == udc@.take(i as int),
        decreases udc.len() - i,
    {
        content.push(udc[i]);
        i += 1;
    }
    proof {
        assert(udc@.take(udc.len() as int) == udc@);
    }
    let mut steps: Vec<Action> = Vec::new();
    steps.push(mkdir("/sys/kernel/config/usb_gadget/9pfs"));
    steps.push(write("/sys/kernel/config/usb_gadget/9pfs/idVendor", "0x1d6b"));
    steps.push(write("/sys/kernel/config/usb_gadget/9pfs/idProduct", "0x0109"));
    steps.push(mkdir("/sys/kernel/config/usb_gadget/9pfs/strings/0x409"));
    steps.push(write("/sys/kernel/config/usb_gadget/9pfs/strings/0x409/serialnumber", "01234567"));
    steps.push(
        write("/sys/kernel/config/usb_gadget/9pfs/strings/0x409/manufacturer", "Pengutronix e.K."),
    );
    steps.push(write("/sys/kernel/config/usb_gadget/9pfs/strings/0x409/product", "9PFS Gadget"));
    steps.push(mkdir("/sys/kernel/config/usb_gadget/9pfs/configs/c.1"));
    steps.push(mkdir("/sys/kernel/config/usb_gadget/9pfs/configs/c.1/strings/0x409"));
    steps.push(Action::Mkdir { dir: function.clone() });
    steps.push(Action::Symlink { original: function, link });
    steps.push(
        Action::WriteFile { path: "/sys/kernel/config/usb_gadget/9pfs/UDC".to_owned(), content },
    );
    steps.push(Action::Sleep { millis: GADGET_SETTLE_MILLIS });
    let mut plan = mount_apivfs("/sys/kernel/config", "configfs");
    let ghost mounted = plan_view(plan@);
    let ghost scripted = plan_view(steps@);
    extend_plan(&mut plan, steps);
    proof {
        assert(mounted + scripted =~= gadget_plan(device@, udc@));
    }
    plan
}

} // verus!
