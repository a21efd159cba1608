//! The kernel command line: its tokens, the options that the boot reads from
//! them, and the resolution of an NFS root.

use vstd::prelude::*;
use crate::mount::{MountFlags, MS_RDONLY};
use crate::text::{
    append_chars, append_str, chars_of, copy_range, copy_range_without, find, find_in, lines,
    same_chars, same_str, split_lines, split_once, string_of, without,
};
use crate::util::{Error, ErrorView};

verus! {

/// One option of the command line: a key, and the value behind `=` if there is one.
#[derive(Debug, PartialEq, Eq)]
pub struct CmdlineToken {
    pub key: String,
    pub value: Option<String>,
}

/// A `CmdlineToken` with its texts as sequences of characters.
pub struct TokenView {
    pub key: Seq<char>,
    pub value: Option<Seq<char>>,
}

impl DeepView for CmdlineToken {
    type V = TokenView;

    open spec fn deep_view(&self) -> TokenView {
        TokenView { key: self.key@, value: self.value.deep_view() }
    }
}

impl View for CmdlineToken {
    type V = TokenView;

    open spec fn view(&self) -> TokenView {
        self.deep_view()
    }
}

/// Space and newline part the options of a command line.
pub open spec fn is_separator(c: char) -> bool {
    c == ' ' || c == '\n'
}

/// The number of characters of `s` before its first separator outside double
/// quotes, where `quoted` says whether `s` begins inside quotes. It is the
/// length of `s` where no such separator follows.
pub open spec fn token_len(s: Seq<char>, quoted: bool) -> nat
    decreases s.len(),
{
    if s.len() == 0 {
        0
    } else if !quoted && is_separator(s[0]) {
        0
    } else {
        1 + token_len(s.drop_first(), quoted != (s[0] == '"'))
    }
}

/// The option that the text between two separators stands for. The first `=`
/// parts key and value, a later one belongs to the value; without `=` all of
/// it is the key. Double quotes are left out of both. A text whose key is
/// empty stands for no option.
pub open spec fn token_of(segment: Seq<char>) -> Option<TokenView> {
    let (key, value) = match split_once(segment, '=') {
        Some((k, v)) => (without(k, '"'), Some(without(v, '"'))),
        None => (without(segment, '"'), None),
    };
    if key.len() == 0 {
        None
    } else {
        Some(TokenView { key, value })
    }
}

/// The options of a command line, in their order. Only a separator outside
/// quotes ends an option: what follows the last of them is not read.
pub open spec fn tokens(s: Seq<char>) -> Seq<TokenView>
    decreases s.len(),
{
    let n = token_len(s, false);
    if n >= s.len() {
        Seq::empty()
    } else {
        let rest = tokens(s.skip(n as int + 1));
        match token_of(s.take(n as int)) {
            Some(t) => seq![t] + rest,
            None => rest,
        }
    }
}

/// Finds where the option that begins at `from` ends.
fn token_end(s: &[char], from: usize) -> (end: usize)
    requires
        from <= s.len(),
    ensures
        from <= end <= s.len(),
        end - from == token_len(s@.skip(from as int), false),
{
    let mut i: usize = from;
    let mut quoted = false;
    while i < s.len()
        invariant
            from <= i <= s.len(),
            token_len(s@.skip(from as int), false) == (i - from) + token_len(
                s@.skip(i as int),
                quoted,
            ),
        decreases s.len() - i,
    {
        let c = s[i];
        proof {
            assert(s@.skip(i as int)[0] == c);
            assert(s@.skip(i as int).drop_first() == s@.skip(i + 1));
        }
        if !quoted && (c == ' ' || c == '\n') {
            return i;
        }
        if c == '"' {
            quoted = !quoted;
        }
        i += 1;
    }
    i
}

/// Reads the option that stands from `from` up to `to`.
fn make_token(s: &[char], from: usize, to: usize) -> (t: Option<CmdlineToken>)
    requires
        from <= to <= s.len(),
    ensures
        t.deep_view() == token_of(s@.subrange(from as int, to as int)),
{
    let ghost segment = s@.subrange(from as int, to as int);
    let (key, value) = match find_in(s, from, to, '=') {
        Some(eq) => {
            proof {
                assert(segment.take(eq - from) == s@.subrange(from as int, eq as int));
                assert(segment.skip(eq - from + 1) == s@.subrange(eq + 1, to as int));
            }
            let k = copy_range_without(s, from, eq, '"');
            let v = copy_range_without(s, eq + 1, to, '"');
            (k, Some(string_of(v.as_slice())))
        },
        None => (copy_range_without(s, from, to, '"'), None),
    };
    if key.len() == 0 {
        None
    } else {
        Some(CmdlineToken { key: string_of(key.as_slice()), value })
    }
}

/// Parts a command line into its options.
pub fn tokenize(cmdline: &str) -> (ts: Vec<CmdlineToken>)
    ensures
        ts.deep_view() == tokens(cmdline@),
{
    let chars = chars_of(cmdline);
    let s = chars.as_slice();
    let mut out: Vec<CmdlineToken> = Vec::new();
    let mut pos: usize = 0;
    proof {
        assert(s@.skip(0) == s@);
    }
    loop
        invariant
            pos <= s.len(),
            s@ == cmdline@,
            tokens(s@) == out.deep_view() + tokens(s@.skip(pos as int)),
        ensures
            out.deep_view() == tokens(cmdline@),
        decreases s.len() - pos,
    {
        let end = token_end(s, pos);
        if end >= s.len() {
            break;
        }
        let ghost before = out.deep_view();
        proof {
            let rest = s@.skip(pos as int);
            assert(rest.take(end - pos) == s@.subrange(pos as int, end as int));
            assert(rest.skip(end - pos + 1) == s@.skip(end + 1));
        }
        match make_token(s, pos, end) {
            Some(t) => {
                out.push(t);
                assert(out.deep_view() == before.push(t.deep_view()));
            },
            None => {},
        }
        pos = end + 1;
    }
    out
}

/// The init that is started where the command line names none.
pub const SBIN_INIT: &'static str = "/sbin/init";

/// What the boot was told: where the root file system is, how to mount it,
/// and what to start from it.
#[derive(Debug, PartialEq, Eq)]
pub struct CmdlineOptions {
    /// The root device, or what stands for it (`root=`).
    pub root: Option<String>,
    /// The type of the root file system (`rootfstype=`).
    pub rootfstype: Option<String>,
    /// The mount options that the file system itself reads (`rootflags=`).
    pub rootflags: Option<String>,
    /// The generic mount attributes (`ro`, `rw`).
    pub rootfsflags: MountFlags,
    /// The NFS root as the command line gave it (`nfsroot=`).
    pub nfsroot: Option<String>,
    /// The program that takes over from this one (`init=`).
    pub init: String,
    /// Whether this program removes its own traces when it hands over.
    pub cleanup: bool,
}

/// `CmdlineOptions` with its texts as sequences of characters.
pub struct OptionsView {
    pub root: Option<Seq<char>>,
    pub rootfstype: Option<Seq<char>>,
    pub rootflags: Option<Seq<char>>,
    pub rootfsflags: MountFlags,
    pub nfsroot: Option<Seq<char>>,
    pub init: Seq<char>,
    pub cleanup: bool,
}

impl DeepView for CmdlineOptions {
    type V = OptionsView;

    open spec fn deep_view(&self) -> OptionsView {
        OptionsView {
            root: self.root.deep_view(),
            rootfstype: self.rootfstype.deep_view(),
            rootflags: self.rootflags.deep_view(),
            rootfsflags: self.rootfsflags,
            nfsroot: self.nfsroot.deep_view(),
            init: self.init@,
            cleanup: self.cleanup,
        }
    }
}

impl View for CmdlineOptions {
    type V = OptionsView;

    open spec fn view(&self) -> OptionsView {
        self.deep_view()
    }
}

/// The options of a boot whose command line says nothing: no root, mounted
/// read-only, `/sbin/init`, traces removed.
pub open spec fn default_options() -> OptionsView {
    OptionsView {
        root: None,
        rootfstype: None,
        rootflags: None,
        rootfsflags: MountFlags { bits: MS_RDONLY },
        nfsroot: None,
        init: SBIN_INIT@,
        cleanup: true,
    }
}

impl Default for CmdlineOptions {
    fn default() -> (options: CmdlineOptions)
        ensures
            options@ == default_options(),
    {
        CmdlineOptions {
            root: None,
            rootfstype: None,
            rootflags: None,
            rootfsflags: MountFlags::from_bits(MS_RDONLY),
            nfsroot: None,
            init: SBIN_INIT.to_owned(),
            cleanup: true,
        }
    }
}

/// The keys that the boot itself reads.
pub open spec fn is_recognized(key: Seq<char>) -> bool {
    key == "root"@ || key == "rootfstype"@ || key == "rootflags"@ || key == "ro"@ || key == "rw"@
        || key == "nfsroot"@ || key == "init"@
}

/// The value of an option that needs one.
pub open spec fn required_value(key: Seq<char>, value: Option<Seq<char>>) -> Result<
    Seq<char>,
    ErrorView,
> {
    match value {
        Some(v) => Ok(v),
        None => Err(ErrorView::MissingValue { key }),
    }
}

/// The options after one more option of the command line. `root`,
/// `rootfstype`, `nfsroot` and `init` need a value; `rootflags` takes its value
/// or none; `ro` and `rw` set and clear the read-only attribute whether or not
/// a value follows. Any other key leaves the options as they are.
pub open spec fn apply_token(o: OptionsView, t: TokenView) -> Result<OptionsView, ErrorView> {
    if t.key == "root"@ {
        match required_value(t.key, t.value) {
            Ok(v) => Ok(OptionsView { root: Some(v), ..o }),
            Err(e) => Err(e),
        }
    } else if t.key == "rootfstype"@ {
        match required_value(t.key, t.value) {
            Ok(v) => Ok(OptionsView { rootfstype: Some(v), ..o }),
            Err(e) => Err(e),
        }
    } else if t.key == "rootflags"@ {
        Ok(OptionsView { rootflags: t.value, ..o })
    } else if t.key == "ro"@ {
        Ok(OptionsView { rootfsflags: MountFlags { bits: o.rootfsflags.bits | MS_RDONLY }, ..o })
    } else if t.key == "rw"@ {
        Ok(OptionsView { rootfsflags: MountFlags { bits: o.rootfsflags.bits & !MS_RDONLY }, ..o })
    } else if t.key == "nfsroot"@ {
        match required_value(t.key, t.value) {
            Ok(v) => Ok(OptionsView { nfsroot: Some(v), ..o }),
            Err(e) => Err(e),
        }
    } else if t.key == "init"@ {
        match required_value(t.key, t.value) {
            Ok(v) => Ok(OptionsView { init: v, ..o }),
            Err(e) => Err(e),
        }
    } else {
        Ok(o)
    }
}

/// The options after all of `ts`, read in order on top of `o`, or the error of
/// the first option that cannot be read.
pub open spec fn apply_tokens(o: OptionsView, ts: Seq<TokenView>) -> Result<
    OptionsView,
    ErrorView,
>
    decreases ts.len(),
{
    if ts.len() == 0 {
        Ok(o)
    } else {
        match apply_tokens(o, ts.drop_last()) {
            Ok(before) => apply_token(before, ts.last()),
            Err(e) => Err(e),
        }
    }
}

/// Gives the value of an option that needs one.
pub fn ensure_value<'a>(key: &str, value: Option<&'a str>) -> (r: Result<&'a str, Error>)
    ensures
        match value {
            Some(v) => r == Ok::<&str, Error>(v),
            None => r matches Err(e) && e@ == (ErrorView::MissingValue { key: key@ }),
        },
        match r {
            Ok(v) => required_value(key@, value.deep_view()) == Ok::<Seq<char>, ErrorView>(v@),
            Err(e) => required_value(key@, value.deep_view()) == Err::<Seq<char>, ErrorView>(e@),
        },
{
    match value {
        Some(v) => Ok(v),
        None => Err(Error::MissingValue { key: key.to_owned() }),
    }
}

/// Reads one option into `options` if its key is one that the boot itself
/// reads, and tells whether it is.
pub fn parse_known_option(key: &str, value: Option<&str>, options: &mut CmdlineOptions) -> (r:
    Result<bool, Error>)
    ensures
        match apply_token(old(options)@, TokenView { key: key@, value: value.deep_view() }) {
            Ok(o) => r == Ok::<bool, Error>(is_recognized(key@)) && final(options)@ == o,
            Err(e) => r matches Err(x) && x@ == e && final(options)@ == old(options)@,
        },
{
    if same_str(key, "root") {
        let v = ensure_value(key, value)?;
        options.root = Some(v.to_owned());
    } else if same_str(key, "rootfstype") {
        let v = ensure_value(key, value)?;
        options.rootfstype = Some(v.to_owned());
    } else if same_str(key, "rootflags") {
        options.rootflags = match value {
            Some(v) => Some(v.to_owned()),
            None => None,
        };
    } else if same_str(key, "ro") {
        options.rootfsflags.insert(MountFlags::from_bits(MS_RDONLY));
    } else if same_str(key, "rw") {
        options.rootfsflags.remove(MountFlags::from_bits(MS_RDONLY));
    } else if same_str(key, "nfsroot") {
        let v = ensure_value(key, value)?;
        options.nfsroot = Some(v.to_owned());
    } else if same_str(key, "init") {
        let v = ensure_value(key, value)?;
        options.init = v.to_owned();
    } else {
        return Ok(false);
    }
    Ok(true)
}

/// Whether the options ask for a root on NFS.
pub open spec fn wants_nfs(o: OptionsView) -> bool {
    o.root == Some("/dev/nfs"@) || o.rootfstype == Some("nfs"@)
}

/// The server that one line of the table of network parameters names: what
/// follows the first space of a line that begins with `bootserver`.
pub open spec fn bootserver_of_line(line: Seq<char>) -> Option<Seq<char>> {
    match split_once(line, ' ') {
        Some((key, value)) => if key == "bootserver"@ {
            Some(value)
        } else {
            None
        },
        None => None,
    }
}

/// The server that the first of the lines to name one names.
pub open spec fn bootserver_in(table: Seq<Seq<char>>) -> Option<Seq<char>>
    decreases table.len(),
{
    if table.len() == 0 {
        None
    } else {
        match bootserver_of_line(table[0]) {
            Some(server) => Some(server),
            None => bootserver_in(table.drop_first()),
        }
    }
}

/// The boot server that the table of network parameters names, if it names one.
pub open spec fn bootserver(table: Seq<char>) -> Option<Seq<char>> {
    bootserver_in(lines(table))
}

/// The part of an `nfsroot=` value before its first comma: the exported path,
/// with or without the server before it.
pub open spec fn nfs_export(nfsroot: Seq<char>) -> Seq<char> {
    match split_once(nfsroot, ',') {
        Some((export, _)) => export,
        None => nfsroot,
    }
}

/// The mount options of an NFS root up to the server's address: `nolock`, then
/// what follows the first comma of the `nfsroot=` value, then `addr=`.
pub open spec fn nfs_options(nfsroot: Seq<char>) -> Seq<char> {
    match split_once(nfsroot, ',') {
        Some((_, given)) => "nolock"@ + ","@ + given + ",addr="@,
        None => "nolock"@ + ",addr="@,
    }
}

/// The options with the NFS root resolved. The root becomes `server:path`, the
/// mount options end in the server's address, the file system type is `nfs`.
/// Where `nfsroot=` names the server, it is taken from there. Where it does
/// not, the table of network parameters is read for it; `table` holds its
/// text, or the words for why it could not be read. A table that names no
/// server leaves the address empty.
pub open spec fn nfs_resolved(o: OptionsView, table: Result<Seq<char>, Seq<char>>) -> Result<
    OptionsView,
    ErrorView,
> {
    match o.nfsroot {
        None => Err(ErrorView::MissingNfsroot),
        Some(nfsroot) => {
            let export = nfs_export(nfsroot);
            let options = nfs_options(nfsroot);
            match split_once(export, ':') {
                Some((server, _)) => Ok(
                    OptionsView {
                        root: Some(export),
                        rootflags: Some(options + server),
                        rootfstype: Some("nfs"@),
                        ..o
                    },
                ),
                None => match table {
                    Err(message) => Err(ErrorView::Failed { message }),
                    Ok(text) => match bootserver(text) {
                        Some(server) => Ok(
                            OptionsView {
                                root: Some(server + ":"@ + export),
                                rootflags: Some(options + server),
                                rootfstype: Some("nfs"@),
                                ..o
                            },
                        ),
                        None => Ok(
                            OptionsView {
                                root: Some(export),
                                rootflags: Some(options),
                                rootfstype: Some("nfs"@),
                                ..o
                            },
                        ),
                    },
                },
            }
        },
    }
}

/// The table of network parameters as `nfs_resolved` takes it.
pub open spec fn table_view(table: Result<&str, &str>) -> Result<Seq<char>, Seq<char>> {
    match table {
        Ok(text) => Ok(text@),
        Err(message) => Err(message@),
    }
}

/// Finds the boot server in the lines of the table of network parameters.
fn find_bootserver(table: &Vec<Vec<char>>) -> (r: Option<Vec<char>>)
    ensures
        r.deep_view() == bootserver_in(table.deep_view()),
{
    let name = chars_of("bootserver");
    let mut i: usize = 0;
    proof {
        assert(table.deep_view().skip(0) == table.deep_view());
    }
    while i < table.len()
        invariant
            i <= table.len(),
            name@ == "bootserver"@,
            bootserver_in(table.deep_view()) == bootserver_in(table.deep_view().skip(i as int)),
        decreases table.len() - i,
    {
        let line = table[i].as_slice();
        proof {
            let rest = table.deep_view().skip(i as int);
            assert(rest[0] == line@) by {
                assert(table@[i as int].deep_view() =~= table@[i as int]@);
            }
            assert(rest.drop_first() == table.deep_view().skip(i + 1));
        }
        match find(line, ' ') {
            Some(space) => {
                let key = copy_range(line, 0, space);
                proof {
                    assert(line@.take(space as int) == line@.subrange(0, space as int));
                    assert(line@.skip(space + 1) == line@.subrange(space + 1, line.len() as int));
                }
                if same_chars(key.as_slice(), name.as_slice()) {
                    let value = copy_range(line, space + 1, line.len());
                    assert(value.deep_view() =~= value@);
                    return Some(value);
                }
            },
            None => {},
        }
        i += 1;
    }
    None
}

/// Resolves the NFS root of `options`. `table` holds the text of the table of
/// boot-time network parameters, or the words for why it could not be read.
pub fn parse_nfsroot(options: &mut CmdlineOptions, table: Result<&str, &str>) -> (r: Result<
    (),
    Error,
>)
    ensures
        match nfs_resolved(old(options)@, table_view(table)) {
            Ok(o) => r is Ok && final(options)@ == o,
            Err(e) => r matches Err(x) && x@ == e && final(options)@ == old(options)@,
        },
{
    let nfsroot = match &options.nfsroot {
        Some(text) => chars_of(text.as_str()),
        None => {
            return Err(Error::MissingNfsroot);
        },
    };
    let spec = nfsroot.as_slice();
    let mut flags: Vec<char> = Vec::new();
    append_str(&mut flags, "nolock");
    let export = match find(spec, ',') {
        Some(comma) => {
            proof {
                assert(spec@.take(comma as int) == spec@.subrange(0, comma as int));
                assert(spec@.skip(comma + 1) == spec@.subrange(comma + 1, spec.len() as int));
            }
            let given = copy_range(spec, comma + 1, spec.len());
            append_str(&mut flags, ",");
            append_chars(&mut flags, given.as_slice());
            copy_range(spec, 0, comma)
        },
        None => {
            proof {
                assert(spec@.subrange(0, spec.len() as int) == spec@);
            }
            copy_range(spec, 0, spec.len())
        },
    };
    append_str(&mut flags, ",addr=");
    assert(export@ == nfs_export(spec@));
    assert(flags@ == nfs_options(spec@));
    let mut root: Vec<char> = Vec::new();
    match find(export.as_slice(), ':') {
        Some(colon) => {
            proof {
                assert(export@.take(colon as int) == export@.subrange(0, colon as int));
            }
            let server = copy_range(export.as_slice(), 0, colon);
            append_chars(&mut flags, server.as_slice());
            append_chars(&mut root, export.as_slice());
        },
        None => {
            let text = match table {
                Ok(text) => text,
                Err(message) => {
                    return Err(Error::failed(message));
                },
            };
            let chars = chars_of(text);
            let rows = split_lines(chars.as_slice());
            match find_bootserver(&rows) {
                Some(server) => {
                    assert(server.deep_view() =~= server@);
                    append_chars(&mut root, server.as_slice());
                    append_str(&mut root, ":");
                    append_chars(&mut root, export.as_slice());
                    append_chars(&mut flags, server.as_slice());
                },
                None => {
                    append_chars(&mut root, export.as_slice());
                },
            }
        },
    }
    options.root = Some(string_of(root.as_slice()));
    options.rootflags = Some(string_of(flags.as_slice()));
    options.rootfstype = Some("nfs".to_owned());
    Ok(())
}

/// The options that a command line gives on top of the default options, with
/// the NFS root resolved where the options ask for one.
pub open spec fn parsed(cmdline: Seq<char>, table: Result<Seq<char>, Seq<char>>) -> Result<
    OptionsView,
    ErrorView,
> {
    match apply_tokens(default_options(), tokens(cmdline)) {
        Ok(o) => if wants_nfs(o) {
            nfs_resolved(o, table)
        } else {
            Ok(o)
        },
        Err(e) => Err(e),
    }
}

/// Whether reading a command line takes the table of boot-time network
/// parameters: the options ask for an NFS root, and `nfsroot=` names a path
/// without a server before it.
pub open spec fn needs_table(cmdline: Seq<char>) -> bool {
    match apply_tokens(default_options(), tokens(cmdline)) {
        Ok(o) => wants_nfs(o) && o.nfsroot is Some && split_once(
            nfs_export(o.nfsroot->Some_0),
            ':',
        ) is None,
        Err(_) => false,
    }
}

/// Where the table of boot-time network parameters is not needed, what it
/// holds makes no difference to the options.
pub proof fn lemma_table_unread(
    cmdline: Seq<char>,
    one: Result<Seq<char>, Seq<char>>,
    other: Result<Seq<char>, Seq<char>>,
)
    requires
        !needs_table(cmdline),
    ensures
        parsed(cmdline, one) == parsed(cmdline, other),
{
}

/// The read-only attribute after a command line is read: it is set exactly
/// where the line has neither `ro` nor `rw`, or the last of them is `ro`;
/// and no other attribute is set.
pub proof fn lemma_read_only_follows_line(cmdline: Seq<char>, table: Result<Seq<char>, Seq<char>>)
    requires
        parsed(cmdline, table) is Ok,
    ensures
        ({
            let flags = parsed(cmdline, table)->Ok_0.rootfsflags;
            &&& is_read_only(flags) == (last_access(tokens(cmdline)) != Some(false))
            &&& flags.bits & !MS_RDONLY == 0
        }),
{
    lemma_last_occurrence_wins(default_options(), tokens(cmdline));
    assert(MS_RDONLY & MS_RDONLY == MS_RDONLY && MS_RDONLY & !MS_RDONLY == 0) by (bit_vector);
}

/// An NFS root is resolved before anyone reads the options: where a command
/// line asks for a root on NFS and can be read, the options that it gives
/// name a root, the mount options that begin with `nolock`, and the file
/// system type `nfs`.
pub proof fn lemma_nfs_root_is_resolved(cmdline: Seq<char>, table: Result<Seq<char>, Seq<char>>)
    requires
        parsed(cmdline, table) is Ok,
        wants_nfs(apply_tokens(default_options(), tokens(cmdline))->Ok_0),
    ensures
        ({
            let o = parsed(cmdline, table)->Ok_0;
            &&& o.root is Some
            &&& o.rootfstype == Some("nfs"@)
            &&& o.rootflags is Some
            &&& "nolock"@.is_prefix_of(o.rootflags->Some_0)
            &&& o.nfsroot == apply_tokens(default_options(), tokens(cmdline))->Ok_0.nfsroot
        }),
{
    let o = parsed(cmdline, table)->Ok_0;
    let flags = o.rootflags->Some_0;
    assert("nolock"@ =~= flags.subrange(0, "nolock"@.len() as int));
}

/// The outcome of reading a command line, with its texts as sequences of
/// characters.
pub open spec fn outcome_view(r: Result<CmdlineOptions, Error>) -> Result<OptionsView, ErrorView> {
    match r {
        Ok(o) => Ok(o@),
        Err(e) => Err(e@),
    }
}

/// The first of two answers that is a refusal, if one is.
pub open spec fn first_of(first: Result<(), Error>, next: Result<(), Error>) -> Result<(), Error> {
    match first {
        Ok(_) => next,
        Err(e) => Err(e),
    }
}

/// The first refusal among the answers, if there is one.
pub open spec fn first_refusal(answers: Seq<Result<(), Error>>) -> Result<(), Error>
    decreases answers.len(),
{
    if answers.len() == 0 {
        Ok(())
    } else {
        first_of(first_refusal(answers.drop_last()), answers.last())
    }
}

/// Every callback can be called with every option.
pub open spec fn callable<F: Fn(&str, Option<&str>) -> Result<(), Error>>(
    callbacks: Seq<F>,
) -> bool {
    forall|j: int, key: &str, value: Option<&str>|
        0 <= j < callbacks.len() ==> #[trigger] call_requires(callbacks[j], (key, value))
}

/// `answers` holds, for each callback in its turn, an answer that it gives
/// when it is called with the key and the value.
pub open spec fn offered<F: Fn(&str, Option<&str>) -> Result<(), Error>>(
    callbacks: Seq<F>,
    key: &str,
    value: Option<&str>,
    answers: Seq<Result<(), Error>>,
) -> bool {
    &&& answers.len() == callbacks.len()
    &&& forall|j: int|
        0 <= j < callbacks.len() ==> call_ensures(callbacks[j], (key, value), #[trigger] answers[j])
}

/// A callback answers with the error `e` when it is called with an option of
/// `ts` that the boot itself does not read.
pub open spec fn refused_by_callback<F: Fn(&str, Option<&str>) -> Result<(), Error>>(
    callbacks: Seq<F>,
    ts: Seq<TokenView>,
    e: Error,
) -> bool {
    exists|j: int, key: &str, value: Option<&str>|
        0 <= j < callbacks.len() && !is_recognized(key@) && ts.contains(
            TokenView { key: key@, value: value.deep_view() },
        ) && #[trigger] call_ensures(callbacks[j], (key, value), Err::<(), Error>(e))
}

/// No callback can refuse an option of `ts` that the boot itself does not read.
pub open spec fn accepted_by_callbacks<F: Fn(&str, Option<&str>) -> Result<(), Error>>(
    callbacks: Seq<F>,
    ts: Seq<TokenView>,
) -> bool {
    forall|j: int, key: &str, value: Option<&str>, answer: Result<(), Error>|
        0 <= j < callbacks.len() && !is_recognized(key@) && ts.contains(
            TokenView { key: key@, value: value.deep_view() },
        ) && #[trigger] call_ensures(callbacks[j], (key, value), answer) ==> answer is Ok
}

/// A refusal that `first_refusal` gives is one of the answers.
pub proof fn lemma_first_refusal(answers: Seq<Result<(), Error>>)
    ensures
        match first_refusal(answers) {
            Ok(_) => forall|j: int| 0 <= j < answers.len() ==> answers[j] is Ok,
            Err(e) => exists|j: int| 0 <= j < answers.len() && answers[j] == Err::<(), Error>(e),
        },
    decreases answers.len(),
{
    if answers.len() > 0 {
        let before = answers.drop_last();
        lemma_first_refusal(before);
        match first_refusal(before) {
            Ok(_) => {
                assert forall|j: int| 0 <= j < answers.len() - 1 implies answers[j] is Ok by {
                    assert(answers[j] == before[j]);
                }
                if answers.last() is Err {
                    assert(answers[answers.len() - 1] == answers.last());
                }
            },
            Err(e) => {
                let j = choose|j: int| 0 <= j < before.len() && before[j] == Err::<(), Error>(e);
                assert(answers[j] == before[j]);
            },
        }
    }
}

/// An error of a prefix of the options is the error of them all.
pub proof fn lemma_apply_tokens_stops(o: OptionsView, ts: Seq<TokenView>, n: int)
    requires
        0 <= n <= ts.len(),
        apply_tokens(o, ts.take(n)) is Err,
    ensures
        apply_tokens(o, ts) == apply_tokens(o, ts.take(n)),
    decreases ts.len() - n,
{
    if n < ts.len() {
        assert(ts.take(n + 1).drop_last() == ts.take(n));
        lemma_apply_tokens_stops(o, ts, n + 1);
    } else {
        assert(ts.take(n) == ts);
    }
}

impl Clone for CmdlineOptions {
    fn clone(&self) -> (copy: CmdlineOptions)
        ensures
            copy@ == self@,
    {
        CmdlineOptions {
            root: clone_text(&self.root),
            rootfstype: clone_text(&self.rootfstype),
            rootflags: clone_text(&self.rootflags),
            rootfsflags: self.rootfsflags,
            nfsroot: clone_text(&self.nfsroot),
            init: self.init.clone(),
            cleanup: self.cleanup,
        }
    }
}

/// Copies a text that may be absent.
fn clone_text(text: &Option<String>) -> (copy: Option<String>)
    ensures
        copy.deep_view() == text.deep_view(),
{
    match text {
        Some(t) => Some(t.clone()),
        None => None,
    }
}

/// The value of a token as the functions on options take it.
fn value_of(token: &CmdlineToken) -> (value: Option<&str>)
    ensures
        value.deep_view() == token.value.deep_view(),
{
    match &token.value {
        Some(v) => Some(v.as_str()),
        None => None,
    }
}

impl CmdlineOptions {
    /// The options of a boot whose command line says nothing.
    pub fn new() -> (options: CmdlineOptions)
        ensures
            options@ == default_options(),
    {
        CmdlineOptions::default()
    }

    /// A reader of command lines that offers the keys which the boot itself
    /// does not read to each of `callbacks`, in their order.
    pub fn new_with_callbacks<F: Fn(&str, Option<&str>) -> Result<(), Error>>(
        callbacks: Vec<F>,
    ) -> (parser: CmdlineParser<F>)
        ensures
            parser.callbacks == callbacks,
    {
        CmdlineParser { callbacks }
    }

    /// Reads the options of a command line on top of the default options, and
    /// leaves an NFS root as the line names it. Keys that the boot does not
    /// read are passed over.
    pub fn scan(cmdline: &str) -> (r: Result<CmdlineOptions, Error>)
        ensures
            outcome_view(r) == apply_tokens(default_options(), tokens(cmdline@)),
    {
        let ts = tokenize(cmdline);
        let mut options = CmdlineOptions::default();
        let mut i: usize = 0;
        while i < ts.len()
            invariant
                i <= ts.len(),
                ts.deep_view() == tokens(cmdline@),
                apply_tokens(default_options(), ts.deep_view().take(i as int)) == Ok::<
                    OptionsView,
                    ErrorView,
                >(options@),
            decreases ts.len() - i,
        {
            proof {
                let read = ts.deep_view().take(i + 1);
                assert(read.drop_last() == ts.deep_view().take(i as int));
                assert(read.last() == ts@[i as int].deep_view());
            }
            match parse_known_option(ts[i].key.as_str(), value_of(&ts[i]), &mut options) {
                Ok(_) => {},
                Err(e) => {
                    proof {
                        lemma_apply_tokens_stops(default_options(), ts.deep_view(), i + 1);
                    }
                    return Err(e);
                },
            }
            i += 1;
        }
        proof {
            assert(ts.deep_view().take(i as int) == ts.deep_view());
        }
        Ok(options)
    }

    /// Reads a command line on top of the default options; what `self` holds
    /// has no part in the outcome. Keys that the boot does not read are
    /// passed over. `table` is the text of the table of boot-time network
    /// parameters, or the words for why it could not be read; it is looked at
    /// only for an NFS root whose server the line does not name.
    pub fn from_string(&self, cmdline: &str, table: Result<&str, &str>) -> (r: Result<
        CmdlineOptions,
        Error,
    >)
        ensures
            outcome_view(r) == parsed(cmdline@, table_view(table)),
    {
        let mut options = CmdlineOptions::scan(cmdline)?;
        if wants_nfs_root(&options) {
            parse_nfsroot(&mut options, table)?;
        }
        Ok(options)
    }

    /// Tells whether reading the command line takes the table of boot-time
    /// network parameters: the root is on NFS and `nfsroot=` does not name the
    /// server.
    pub fn needs_network_table(cmdline: &str) -> (r: bool)
        ensures
            r == needs_table(cmdline@),
    {
        let options = match CmdlineOptions::scan(cmdline) {
            Ok(options) => options,
            Err(_) => {
                return false;
            },
        };
        if !wants_nfs_root(&options) {
            return false;
        }
        let nfsroot = match &options.nfsroot {
            Some(text) => chars_of(text.as_str()),
            None => {
                return false;
            },
        };
        let spec = nfsroot.as_slice();
        let end = match find(spec, ',') {
            Some(comma) => comma,
            None => spec.len(),
        };
        proof {
            assert(spec@.take(end as int) == spec@.subrange(0, end as int));
            assert(spec@.subrange(0, spec.len() as int) == spec@);
        }
        find_in(spec, 0, end, ':').is_none()
    }
}

/// Tells whether the options ask for a root on NFS.
pub fn wants_nfs_root(options: &CmdlineOptions) -> (r: bool)
    ensures
        r == wants_nfs(options@),
{
    let by_root = match &options.root {
        Some(root) => same_str(root.as_str(), "/dev/nfs"),
        None => false,
    };
    let by_type = match &options.rootfstype {
        Some(fstype) => same_str(fstype.as_str(), "nfs"),
        None => false,
    };
    by_root || by_type
}

/// A reader of command lines with the handlers of the keys that the boot
/// itself does not read.
pub struct CmdlineParser<F> {
    pub callbacks: Vec<F>,
}

/// Keeps the first of two answers that is a refusal.
pub fn keep_first(first: Result<(), Error>, next: Result<(), Error>) -> (r: Result<(), Error>)
    ensures
        r == first_of(first, next),
{
    match first {
        Ok(_) => next,
        Err(e) => Err(e),
    }
}

/// Reads one option. A key that the boot itself reads goes into `options`.
/// Any other key is offered to every callback, in their order, also after one
/// of them has refused it; the first refusal is the error.
pub fn parse_option<F: Fn(&str, Option<&str>) -> Result<(), Error>>(
    key: &str,
    value: Option<&str>,
    options: &mut CmdlineOptions,
    callbacks: &[F],
) -> (r: Result<(), Error>)
    requires
        callable(callbacks@),
    ensures
        match apply_token(old(options)@, TokenView { key: key@, value: value.deep_view() }) {
            Ok(o) => final(options)@ == o && if is_recognized(key@) {
                r is Ok
            } else {
                exists|answers: Seq<Result<(), Error>>|
                    #[trigger] offered(callbacks@, key, value, answers) && r == first_refusal(
                        answers,
                    )
            },
            Err(e) => r matches Err(x) && x@ == e && final(options)@ == old(options)@,
        },
{
    if parse_known_option(key, value, options)? {
        return Ok(());
    }
    let mut first: Result<(), Error> = Ok(());
    let ghost mut answers: Seq<Result<(), Error>> = Seq::empty();
    let mut j: usize = 0;
    while j < callbacks.len()
        invariant
            j <= callbacks.len(),
            callable(callbacks@),
            answers.len() == j,
            forall|k: int|
                0 <= k < j ==> call_ensures(callbacks@[k], (key, value), #[trigger] answers[k]),
            first == first_refusal(answers),
        decreases callbacks.len() - j,
    {
        let answer = (callbacks[j])(key, value);
        proof {
            let ghost before = answers;
            answers = answers.push(answer);
            assert(answers.drop_last() == before);
        }
        first = keep_first(first, answer);
        j += 1;
    }
    proof {
        assert(offered(callbacks@, key, value, answers));
    }
    first
}

/// What reading a command line with callbacks comes to. The options are what
/// the line says on top of the default options, whatever the callbacks do.
/// An error is the one of the line, unless a callback has refused an option
/// of the line. Where no callback can refuse an option of the line, the
/// outcome is that of the line alone.
pub open spec fn cmdline_read<F: Fn(&str, Option<&str>) -> Result<(), Error>>(
    callbacks: Seq<F>,
    cmdline: Seq<char>,
    table: Result<Seq<char>, Seq<char>>,
    r: Result<CmdlineOptions, Error>,
) -> bool {
    let line = parsed(cmdline, table);
    &&& r matches Ok(o) ==> line == Ok::<OptionsView, ErrorView>(o@)
    &&& r matches Err(e) ==> line == Err::<OptionsView, ErrorView>(e@) || refused_by_callback(
        callbacks,
        tokens(cmdline),
        e,
    )
    &&& accepted_by_callbacks(callbacks, tokens(cmdline)) ==> outcome_view(r) == line
}

/// Reads a command line on top of the default options. A key that the boot
/// itself does not read is offered to the callbacks, with the value that the
/// line gives it; reading stops with the first option that cannot be read or
/// that a callback refuses. `table` is the text of the table of boot-time
/// network parameters, or the words for why it could not be read.
pub fn parse_cmdline<F: Fn(&str, Option<&str>) -> Result<(), Error>>(
    cmdline: &str,
    table: Result<&str, &str>,
    callbacks: &[F],
) -> (r: Result<CmdlineOptions, Error>)
    requires
        callable(callbacks@),
    ensures
        cmdline_read(callbacks@, cmdline@, table_view(table), r),
{
    let ts = tokenize(cmdline);
    let mut options = CmdlineOptions::default();
    let mut i: usize = 0;
    while i < ts.len()
        invariant
            i <= ts.len(),
            callable(callbacks@),
            ts.deep_view() == tokens(cmdline@),
            apply_tokens(default_options(), ts.deep_view().take(i as int)) == Ok::<
                OptionsView,
                ErrorView,
            >(options@),
        decreases ts.len() - i,
    {
        let key = ts[i].key.as_str();
        let value = value_of(&ts[i]);
        let ghost token = TokenView { key: key@, value: value.deep_view() };
        proof {
            let read = ts.deep_view().take(i + 1);
            assert(read.drop_last() == ts.deep_view().take(i as int));
            assert(read.last() == token);
            assert(ts.deep_view()[i as int] == token);
        }
        match parse_option(key, value, &mut options, callbacks) {
            Ok(_) => {},
            Err(e) => {
                proof {
                    let before = apply_tokens(default_options(), ts.deep_view().take(i as int));
                    if apply_token(before->Ok_0, token) is Err {
                        lemma_apply_tokens_stops(default_options(), ts.deep_view(), i + 1);
                    } else {
                        let answers = choose|answers: Seq<Result<(), Error>>|
                            #[trigger] offered(callbacks@, key, value, answers) && Err::<(), Error>(
                                e,
                            ) == first_refusal(answers);
                        lemma_first_refusal(answers);
                        let j = choose|j: int|
                            0 <= j < answers.len() && answers[j] == Err::<(), Error>(e);
                        assert(call_ensures(callbacks@[j], (key, value), answers[j]));
                        assert(refused_by_callback(callbacks@, tokens(cmdline@), e));
                    }
                }
                return Err(e);
            },
        }
        i += 1;
    }
    proof {
        assert(ts.deep_view().take(i as int) == ts.deep_view());
    }
    if wants_nfs_root(&options) {
        parse_nfsroot(&mut options, table)?;
    }
    Ok(options)
}

impl<F: Fn(&str, Option<&str>) -> Result<(), Error>> CmdlineParser<F> {
    /// Reads a command line on top of the default options and offers the keys
    /// that the boot itself does not read to the callbacks, as `parse_cmdline`
    /// does.
    pub fn from_string(&self, cmdline: &str, table: Result<&str, &str>) -> (r: Result<
        CmdlineOptions,
        Error,
    >)
        requires
            callable(self.callbacks@),
        ensures
            cmdline_read(self.callbacks@, cmdline@, table_view(table), r),
    {
        parse_cmdline(cmdline, table, self.callbacks.as_slice())
    }
}

/// The value of the last option of `ts` whose key is `key`, if there is such
/// an option.
pub open spec fn last_value(ts: Seq<TokenView>, key: Seq<char>) -> Option<Option<Seq<char>>>
    decreases ts.len(),
{
    if ts.len() == 0 {
        None
    } else if ts.last().key == key {
        Some(ts.last().value)
    } else {
        last_value(ts.drop_last(), key)
    }
}

/// Whether the last of the options `ro` and `rw` in `ts` is `ro`, if one of
/// the two is there.
pub open spec fn last_access(ts: Seq<TokenView>) -> Option<bool>
    decreases ts.len(),
{
    if ts.len() == 0 {
        None
    } else if ts.last().key == "ro"@ {
        Some(true)
    } else if ts.last().key == "rw"@ {
        Some(false)
    } else {
        last_access(ts.drop_last())
    }
}

/// Whether the read-only attribute is among the flags.
pub open spec fn is_read_only(flags: MountFlags) -> bool {
    flags.bits & MS_RDONLY == MS_RDONLY
}

/// No two of the keys that the boot reads are the same.
pub proof fn lemma_keys_differ()
    ensures
        "root"@.len() == 4,
        "rootfstype"@.len() == 10,
        "rootflags"@.len() == 9,
        "ro"@.len() == 2,
        "rw"@.len() == 2,
        "nfsroot"@.len() == 7,
        "init"@.len() == 4,
        "ro"@ != "rw"@,
        "root"@ != "init"@,
{
    reveal_strlit("root");
    reveal_strlit("rootfstype");
    reveal_strlit("rootflags");
    reveal_strlit("ro");
    reveal_strlit("rw");
    reveal_strlit("nfsroot");
    reveal_strlit("init");
    assert("ro"@[1] != "rw"@[1]);
    assert("root"@[0] != "init"@[0]);
}

/// The last occurrence of a key wins. After a command line is read, each
/// option holds what the last occurrence of its key says, and what it held
/// before where the line does not name the key; the read-only attribute
/// follows the last of `ro` and `rw`, and no other attribute changes.
pub proof fn lemma_last_occurrence_wins(base: OptionsView, ts: Seq<TokenView>)
    requires
        apply_tokens(base, ts) is Ok,
    ensures
        ({
            let o = apply_tokens(base, ts)->Ok_0;
            &&& o.root == match last_value(ts, "root"@) {
                Some(v) => v,
                None => base.root,
            }
            &&& o.rootfstype == match last_value(ts, "rootfstype"@) {
                Some(v) => v,
                None => base.rootfstype,
            }
            &&& o.rootflags == match last_value(ts, "rootflags"@) {
                Some(v) => v,
                None => base.rootflags,
            }
            &&& o.nfsroot == match last_value(ts, "nfsroot"@) {
                Some(v) => v,
                None => base.nfsroot,
            }
            &&& Some(o.init) == match last_value(ts, "init"@) {
                Some(v) => v,
                None => Some(base.init),
            }
            &&& is_read_only(o.rootfsflags) == match last_access(ts) {
                Some(read_only) => read_only,
                None => is_read_only(base.rootfsflags),
            }
            &&& o.rootfsflags.bits & !MS_RDONLY == base.rootfsflags.bits & !MS_RDONLY
            &&& o.cleanup == base.cleanup
        }),
    decreases ts.len(),
{
    lemma_keys_differ();
    if ts.len() > 0 {
        let before = ts.drop_last();
        lemma_last_occurrence_wins(base, before);
        let b = apply_tokens(base, before)->Ok_0.rootfsflags.bits;
        assert((b | 1) & 1 == 1 && (b | 1) & !1u64 == b & !1u64) by (bit_vector);
        assert((b & !1u64) & 1 != 1 && (b & !1u64) & !1u64 == b & !1u64) by (bit_vector);
    }
}

} // verus!
