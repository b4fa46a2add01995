//! The line-command interpreter: a session state of one string (the current
//! working directory), a tokenizer, and a dispatcher that turns one input
//! line into an output text, an optional screen clear, and an optional image
//! to execute. Reading keys and printing are left to the caller; executing a
//! loaded image is as well, since the interpreter only hands the bytes out.

use vstd::prelude::*;

use crate::text::{
    chars_equal, decimal_chars, push_char, render_text, spec_decimal, spec_rendered, str_chars,
    string_of_chars,
};
use crate::vfs::{entry_models, DirEntry, EntryModel, Filesystem, VFS};
use vstd::string::StringExecFns;

verus! {

/// A line's text after its leading spaces.
pub open spec fn spec_skip_spaces(s: Seq<char>) -> Seq<char>
    decreases s.len(),
{
    if s.len() > 0 && s[0] == ' ' {
        spec_skip_spaces(s.drop_first())
    } else {
        s
    }
}

/// The longest space-free prefix of a line.
pub open spec fn spec_token(s: Seq<char>) -> Seq<char>
    decreases s.len(),
{
    if s.len() == 0 || s[0] == ' ' {
        Seq::empty()
    } else {
        seq![s[0]] + spec_token(s.drop_first())
    }
}

/// A line's text after its leading token.
pub open spec fn spec_after_token(s: Seq<char>) -> Seq<char>
    decreases s.len(),
{
    if s.len() == 0 || s[0] == ' ' {
        s
    } else {
        spec_after_token(s.drop_first())
    }
}

/// The command word of a line.
pub open spec fn spec_cmd(line: Seq<char>) -> Seq<char> {
    spec_token(spec_skip_spaces(line))
}

/// The first argument of a line; empty when there is none.
pub open spec fn spec_arg(line: Seq<char>) -> Seq<char> {
    spec_token(spec_skip_spaces(spec_after_token(spec_skip_spaces(line))))
}

/// The recognized commands, with the argument text where one is required.
pub ghost enum CmdModel {
    Blank,
    Help,
    Clear,
    Ls,
    Cd { target: Seq<char> },
    Cat { target: Seq<char> },
    Exec { target: Seq<char> },
    MissingArg,
    Unknown,
}

/// How a line reads as a command: the first token selects the command, the
/// second is its argument; a blank line is a no-op, a command that needs an
/// argument and has none asks for one, anything else is unknown.
pub open spec fn spec_parse(line: Seq<char>) -> CmdModel {
    let cmd = spec_cmd(line);
    let arg = spec_arg(line);
    if cmd.len() == 0 {
        CmdModel::Blank
    } else if cmd == "help"@ {
        CmdModel::Help
    } else if cmd == "clear"@ {
        CmdModel::Clear
    } else if cmd == "ls"@ {
        CmdModel::Ls
    } else if cmd == "cd"@ {
        if arg.len() == 0 {
            CmdModel::MissingArg
        } else {
            CmdModel::Cd { target: arg }
        }
    } else if cmd == "cat"@ {
        if arg.len() == 0 {
            CmdModel::MissingArg
        } else {
            CmdModel::Cat { target: arg }
        }
    } else if cmd == "exec"@ {
        if arg.len() == 0 {
            CmdModel::MissingArg
        } else {
            CmdModel::Exec { target: arg }
        }
    } else {
        CmdModel::Unknown
    }
}

/// A parsed command line.
pub enum Command {
    Blank,
    Help,
    Clear,
    Ls,
    Cd(Vec<char>),
    Cat(Vec<char>),
    Exec(Vec<char>),
    MissingArg,
    Unknown,
}

/// Whether a parsed command carries exactly the modelled command.
pub open spec fn cmd_matches(c: Command, m: CmdModel) -> bool {
    match m {
        CmdModel::Blank => c is Blank,
        CmdModel::Help => c is Help,
        CmdModel::Clear => c is Clear,
        CmdModel::Ls => c is Ls,
        CmdModel::Cd { target } => c matches Command::Cd(t) && t@ == target,
        CmdModel::Cat { target } => c matches Command::Cat(t) && t@ == target,
        CmdModel::Exec { target } => c matches Command::Exec(t) && t@ == target,
        CmdModel::MissingArg => c is MissingArg,
        CmdModel::Unknown => c is Unknown,
    }
}

/// The index after the leading spaces from position `i`.
fn skip_spaces_from(v: &Vec<char>, i: usize) -> (j: usize)
    requires
        i <= v@.len(),
    ensures
        i <= j <= v@.len(),
        spec_skip_spaces(v@.subrange(i as int, v@.len() as int)) == v@.subrange(
            j as int,
            v@.len() as int,
        ),
{
    let ghost n = v@.len() as int;
    let mut j = i;
    while j < v.len() && v[j] == ' '
        invariant
            i <= j <= v@.len(),
            n == v@.len() as int,
            spec_skip_spaces(v@.subrange(i as int, n)) == spec_skip_spaces(
                v@.subrange(j as int, n),
            ),
        decreases v@.len() - j,
    {
        assert(v@.subrange(j as int, n).drop_first() =~= v@.subrange(j + 1, n));
        j = j + 1;
    }
    j
}

/// The end of the token starting at position `i`.
fn token_end_from(v: &Vec<char>, i: usize) -> (e: usize)
    requires
        i <= v@.len(),
    ensures
        i <= e <= v@.len(),
        spec_token(v@.subrange(i as int, v@.len() as int)) == v@.subrange(i as int, e as int),
        spec_after_token(v@.subrange(i as int, v@.len() as int)) == v@.subrange(
            e as int,
            v@.len() as int,
        ),
{
    let ghost n = v@.len() as int;
    let mut e = i;
    while e < v.len() && v[e] != ' '
        invariant
            i <= e <= v@.len(),
            n == v@.len() as int,
            spec_token(v@.subrange(i as int, n)) == v@.subrange(i as int, e as int) + spec_token(
                v@.subrange(e as int, n),
            ),
            spec_after_token(v@.subrange(i as int, n)) == spec_after_token(
                v@.subrange(e as int, n),
            ),
        decreases v@.len() - e,
    {
        proof {
            assert(v@.subrange(e as int, n).drop_first() =~= v@.subrange(e + 1, n));
            assert(v@.subrange(i as int, e as int) + (seq![v@[e as int]] + spec_token(
                v@.subrange(e + 1, n),
            )) =~= v@.subrange(i as int, e + 1) + spec_token(v@.subrange(e + 1, n)));
        }
        e = e + 1;
    }
    proof {
        assert(v@.subrange(i as int, e as int) + Seq::<char>::empty() =~= v@.subrange(
            i as int,
            e as int,
        ));
    }
    e
}

/// The characters of `v` between `a` and `b`.
fn chars_range(v: &Vec<char>, a: usize, b: usize) -> (r: Vec<char>)
    requires
        a <= b <= v@.len(),
    ensures
        r@ == v@.subrange(a as int, b as int),
{
    let mut r: Vec<char> = Vec::new();
    let mut i: usize = a;
    while i < b
        invariant
            a <= i <= b <= v@.len(),
            r@ == v@.subrange(a as int, i as int),
        decreases b - i,
    {
        r.push(v[i]);
        i = i + 1;
        assert(v@.subrange(a as int, i as int) =~= v@.subrange(a as int, i - 1).push(v@[i - 1]));
    }
    r
}

/// Reads one line as a command: the first token selects the command, the
/// second token is its argument, anything after the second token is ignored.
pub fn parse_line(line: &str) -> (r: Command)
    ensures
        cmd_matches(r, spec_parse(line@)),
{
    let v = str_chars(line);
    assert(v@.subrange(0, v@.len() as int) =~= v@);
    let i0 = skip_spaces_from(&v, 0);
    let e0 = token_end_from(&v, i0);
    let i1 = skip_spaces_from(&v, e0);
    let e1 = token_end_from(&v, i1);
    let cmd = chars_range(&v, i0, e0);
    let arg = chars_range(&v, i1, e1);
    assert(cmd@ == spec_cmd(line@));
    assert(arg@ == spec_arg(line@));
    if cmd.len() == 0 {
        Command::Blank
    } else if chars_equal(&cmd, &str_chars("help")) {
        Command::Help
    } else if chars_equal(&cmd, &str_chars("clear")) {
        Command::Clear
    } else if chars_equal(&cmd, &str_chars("ls")) {
        Command::Ls
    } else if chars_equal(&cmd, &str_chars("cd")) {
        if arg.len() == 0 {
            Command::MissingArg
        } else {
            Command::Cd(arg)
        }
    } else if chars_equal(&cmd, &str_chars("cat")) {
        if arg.len() == 0 {
            Command::MissingArg
        } else {
            Command::Cat(arg)
        }
    } else if chars_equal(&cmd, &str_chars("exec")) {
        if arg.len() == 0 {
            Command::MissingArg
        } else {
            Command::Exec(arg)
        }
    } else {
        Command::Unknown
    }
}

/// A path with `name` appended as one more segment.
pub open spec fn spec_join(cwd: Seq<char>, name: Seq<char>) -> Seq<char> {
    if cwd.len() > 0 && cwd.last() == '/' {
        cwd + name
    } else {
        cwd + seq!['/'] + name
    }
}

/// The index of the last separator in a path, or a negative value when the
/// path has none.
pub open spec fn spec_last_slash(s: Seq<char>) -> int
    decreases s.len(),
{
    if s.len() == 0 {
        -1
    } else if s.last() == '/' {
        s.len() - 1
    } else {
        spec_last_slash(s.drop_last())
    }
}

/// A path with its last segment removed: everything after the last
/// separator goes, the separator itself stays only as the root; a path
/// without separators is left as it is.
pub open spec fn spec_parent(cwd: Seq<char>) -> Seq<char> {
    let k = spec_last_slash(cwd);
    if k < 0 {
        cwd
    } else if k == 0 {
        cwd.take(1)
    } else {
        cwd.take(k)
    }
}

/// Appends one segment to a working directory.
pub fn join_path(cwd: &String, name: &str) -> (r: String)
    ensures
        r@ == spec_join(cwd@, name@),
{
    let n = cwd.as_str().unicode_len();
    let mut r = cwd.clone();
    if n == 0 || cwd.as_str().get_char(n - 1) != '/' {
        r.append("/");
        proof {
            reveal_strlit("/");
            assert(cwd@ + "/"@ =~= cwd@ + seq!['/']);
        }
    }
    r.append(name);
    r
}

/// Removes the last segment of a working directory.
pub fn parent_path(cwd: &String) -> (r: String)
    ensures
        r@ == spec_parent(cwd@),
{
    let v = str_chars(cwd.as_str());
    assert(v@.subrange(0, v@.len() as int) =~= v@);
    let mut i: usize = v.len();
    while i > 0 && v[i - 1] != '/'
        invariant
            i <= v@.len(),
            v@ == cwd@,
            spec_last_slash(v@) == spec_last_slash(v@.subrange(0, i as int)),
        decreases i,
    {
        assert(v@.subrange(0, i as int).drop_last() =~= v@.subrange(0, i - 1));
        i = i - 1;
    }
    if i == 0 {
        assert(spec_last_slash(v@.subrange(0, 0)) == -1);
        cwd.clone()
    } else {
        let k = i - 1;
        assert(spec_last_slash(v@) == k as int);
        if k == 0 {
            let part = chars_range(&v, 0, 1);
            assert(part@ =~= cwd@.take(1));
            string_of_chars(&part)
        } else {
            let part = chars_range(&v, 0, k);
            assert(part@ =~= cwd@.take(k as int));
            string_of_chars(&part)
        }
    }
}

/// One rendered listing line: a directory marker and the name for a
/// directory, otherwise the name and the size in bytes.
pub open spec fn spec_entry_line(e: EntryModel) -> Seq<char> {
    if e.is_dir {
        "<DIR> "@ + e.name + seq!['\n']
    } else {
        e.name + " ("@ + spec_decimal(e.size as nat) + " bytes)"@ + seq!['\n']
    }
}

/// The rendered text of a whole listing, one line per entry, in order.
pub open spec fn spec_listing_text(es: Seq<EntryModel>) -> Seq<char>
    decreases es.len(),
{
    if es.len() == 0 {
        Seq::empty()
    } else {
        spec_listing_text(es.drop_last()) + spec_entry_line(es.last())
    }
}

/// Renders a listing as text, one line per entry.
pub fn render_listing(entries: &Vec<DirEntry>) -> (r: String)
    ensures
        r@ == spec_listing_text(entry_models(entries@)),
{
    let mut out = String::new();
    let mut i: usize = 0;
    while i < entries.len()
        invariant
            i <= entries@.len(),
            out@ == spec_listing_text(entry_models(entries@.subrange(0, i as int))),
        decreases entries@.len() - i,
    {
        let e = &entries[i];
        let mut line = String::new();
        if e.is_dir {
            line.append("<DIR> ");
            line.append(e.name.as_str());
        } else {
            line.append(e.name.as_str());
            line.append(" (");
            let d = decimal_chars(e.size);
            let ds = string_of_chars(&d);
            line.append(ds.as_str());
            line.append(" bytes)");
        }
        push_char(&mut line, '\n');
        assert(line@ =~= spec_entry_line(entries@[i as int]@));
        out.append(line.as_str());
        i = i + 1;
        proof {
            let models = entry_models(entries@.subrange(0, i as int));
            assert(models.drop_last() =~= entry_models(entries@.subrange(0, i - 1)));
            assert(models.last() == entries@[i - 1]@);
        }
    }
    assert(entries@.subrange(0, entries@.len() as int) =~= entries@);
    out
}

/// Where `cd` moves the working directory: `..` removes the last segment;
/// any other target is appended and kept only when listing the new path
/// succeeds, otherwise the directory is unchanged.
pub open spec fn spec_cd_target<F: Filesystem>(
    vfs: &VFS<F>,
    cwd: Seq<char>,
    target: Seq<char>,
) -> Seq<char> {
    if target == ".."@ {
        spec_parent(cwd)
    } else {
        let cand = spec_join(cwd, target);
        if vfs.reg_list_dir(cand) is Some {
            cand
        } else {
            cwd
        }
    }
}

/// The working directory after one dispatched line: only `cd` moves it.
pub open spec fn spec_next_cwd<F: Filesystem>(
    vfs: &VFS<F>,
    cwd: Seq<char>,
    line: Seq<char>,
) -> Seq<char> {
    match spec_parse(line) {
        CmdModel::Cd { target } => spec_cd_target(vfs, cwd, target),
        _ => cwd,
    }
}

/// The text printed for one dispatched line.
pub open spec fn spec_reply_text<F: Filesystem>(
    vfs: &VFS<F>,
    cwd: Seq<char>,
    line: Seq<char>,
) -> Seq<char> {
    match spec_parse(line) {
        CmdModel::Blank => Seq::empty(),
        CmdModel::Help => "commands: help, ls, cd <dir>, cat <file>, exec <file>, clear\n"@,
        CmdModel::Clear => Seq::empty(),
        CmdModel::Ls => match vfs.reg_list_dir(cwd) {
            Option::Some(dm) => spec_listing_text(dm.entries),
            Option::None => "cannot list directory\n"@,
        },
        CmdModel::Cd { target } => if target == ".."@ {
            Seq::empty()
        } else if vfs.reg_list_dir(spec_join(cwd, target)) is Some {
            Seq::empty()
        } else {
            "no such directory\n"@
        },
        CmdModel::Cat { target } => match vfs.reg_open(spec_join(cwd, target)) {
            Option::Some(fm) => spec_rendered(fm.data) + seq!['\n'],
            Option::None => "file not found\n"@,
        },
        CmdModel::Exec { target } => match vfs.reg_open(spec_join(cwd, target)) {
            Option::Some(_) => Seq::empty(),
            Option::None => "file not found\n"@,
        },
        CmdModel::MissingArg => "missing argument\n"@,
        CmdModel::Unknown => "unknown command\n"@,
    }
}

/// The bytes handed out for execution by one dispatched line: exactly the
/// opened file's contents for a resolving `exec` line, nothing otherwise.
pub open spec fn spec_exec_payload<F: Filesystem>(
    vfs: &VFS<F>,
    cwd: Seq<char>,
    line: Seq<char>,
    img: Option<Vec<u8>>,
) -> bool {
    match spec_parse(line) {
        CmdModel::Exec { target } => match vfs.reg_open(spec_join(cwd, target)) {
            Option::Some(fm) => img matches Option::Some(b) && b@ == fm.data,
            Option::None => img is None,
        },
        _ => img is None,
    }
}

/// What one dispatched line asks the surrounding loop to do.
pub struct ShellReply {
    /// Text to print, already holding its line breaks.
    pub output: String,
    /// Whether the display is to be cleared.
    pub clear: bool,
    /// An image to copy to the load address and call, for a resolving
    /// `exec` line.
    pub exec_image: Option<Vec<u8>>,
}

/// The interpreter's session state: the current working directory, mutated
/// only by the `cd` command.
pub struct Shell {
    pub cwd: String,
}

impl Shell {
    /// Starts a session at the root directory.
    pub fn new() -> (r: Self)
        ensures
            r.cwd@ == seq!['/'],
    {
        let cwd = String::from_str("/");
        proof {
            reveal_strlit("/");
            assert(cwd@ =~= seq!['/']);
        }
        Shell { cwd }
    }

    /// Dispatches one input line against the mounted filesystem: returns the
    /// text to print, whether to clear the display, and the bytes to execute;
    /// moves the working directory exactly as `cd` prescribes.
    pub fn dispatch<F: Filesystem>(&mut self, line: &str, vfs: &VFS<F>) -> (r: ShellReply)
        ensures
            final(self).cwd@ == spec_next_cwd(vfs, old(self).cwd@, line@),
            r.output@ == spec_reply_text(vfs, old(self).cwd@, line@),
            r.clear == (spec_parse(line@) is Clear),
            spec_exec_payload(vfs, old(self).cwd@, line@, r.exec_image),
    {
        match parse_line(line) {
            Command::Blank => ShellReply { output: String::new(), clear: false, exec_image: None },
            Command::Help => ShellReply {
                output: String::from_str(
                    "commands: help, ls, cd <dir>, cat <file>, exec <file>, clear\n",
                ),
                clear: false,
                exec_image: None,
            },
            Command::Clear => ShellReply { output: String::new(), clear: true, exec_image: None },
            Command::Ls => {
                match vfs.list_dir(self.cwd.as_str()) {
                    Some(d) => ShellReply {
                        output: render_listing(&d.entries),
                        clear: false,
                        exec_image: None,
                    },
                    None => ShellReply {
                        output: String::from_str("cannot list directory\n"),
                        clear: false,
                        exec_image: None,
                    },
                }
            },
            Command::Cd(t) => {
                if chars_equal(&t, &str_chars("..")) {
                    let p = parent_path(&self.cwd);
                    self.cwd = p;
                    ShellReply { output: String::new(), clear: false, exec_image: None }
                } else {
                    let ts = string_of_chars(&t);
                    let cand = join_path(&self.cwd, ts.as_str());
                    match vfs.list_dir(cand.as_str()) {
                        Some(_d) => {
                            self.cwd = cand;
                            ShellReply { output: String::new(), clear: false, exec_image: None }
                        },
                        None => ShellReply {
                            output: String::from_str("no such directory\n"),
                            clear: false,
                            exec_image: None,
                        },
                    }
                }
            },
            Command::Cat(t) => {
                let ts = string_of_chars(&t);
                let path = join_path(&self.cwd, ts.as_str());
                match vfs.open(path.as_str()) {
                    Some(f) => {
                        let mut output = render_text(&f.data);
                        push_char(&mut output, '\n');
                        assert(output@ =~= spec_rendered(f.data@) + seq!['\n']);
                        ShellReply { output, clear: false, exec_image: None }
                    },
                    None => ShellReply {
                        output: String::from_str("file not found\n"),
                        clear: false,
                        exec_image: None,
                    },
                }
            },
            Command::Exec(t) => {
                let ts = string_of_chars(&t);
                let path = join_path(&self.cwd, ts.as_str());
                match vfs.open(path.as_str()) {
                    Some(f) => ShellReply {
                        output: String::new(),
                        clear: false,
                        exec_image: Some(f.data),
                    },
                    None => ShellReply {
                        output: String::from_str("file not found\n"),
                        clear: false,
                        exec_image: None,
                    },
                }
            },
            Command::MissingArg => ShellReply {
                output: String::from_str("missing argument\n"),
                clear: false,
                exec_image: None,
            },
            Command::Unknown => ShellReply {
                output: String::from_str("unknown command\n"),
                clear: false,
                exec_image: None,
            },
        }
    }
}

/// Appending a separator-free segment does not move a path's last
/// separator index past the text it was appended to.
proof fn lemma_last_slash_append(s: Seq<char>, t: Seq<char>)
    requires
        forall|i: int| 0 <= i < t.len() ==> t[i] != '/',
    ensures
        spec_last_slash(s + t) == spec_last_slash(s),
    decreases t.len(),
{
    if t.len() == 0 {
        assert(s + t =~= s);
    } else {
        assert((s + t).last() == t.last());
        assert((s + t).drop_last() =~= s + t.drop_last());
        lemma_last_slash_append(s, t.drop_last());
    }
}

/// Law: `cd ..` at the root leaves the working directory unchanged.
pub proof fn lemma_cd_up_at_root(cwd: Seq<char>)
    requires
        cwd == seq!['/'],
    ensures
        spec_parent(cwd) == cwd,
{
    assert(spec_last_slash(cwd) == 0);
    assert(cwd.take(1) =~= cwd);
}

/// Law: entering a directory and going back up restores the exact same
/// working directory, for any well-formed directory (the root, or a
/// non-empty path not ending in a separator) and any non-empty segment
/// without separators.
pub proof fn lemma_cd_round_trip(cwd: Seq<char>, sub: Seq<char>)
    requires
        cwd.len() > 0,
        cwd == seq!['/'] || cwd.last() != '/',
        sub.len() > 0,
        forall|i: int| 0 <= i < sub.len() ==> sub[i] != '/',
    ensures
        spec_parent(spec_join(cwd, sub)) == cwd,
{
    if cwd.len() > 0 && cwd.last() == '/' {
        assert(cwd =~= seq!['/']);
        let joined = cwd + sub;
        lemma_last_slash_append(cwd, sub);
        assert(spec_last_slash(cwd) == 0);
        assert(spec_last_slash(joined) == 0);
        assert(joined.take(1) =~= cwd);
    } else {
        let joined = cwd + seq!['/'] + sub;
        lemma_last_slash_append(cwd + seq!['/'], sub);
        assert(spec_last_slash(cwd + seq!['/']) == cwd.len() as int);
        assert(spec_last_slash(joined) == cwd.len() as int);
        assert(joined.take(cwd.len() as int) =~= cwd);
    }
}

/// Law, at the command level: `cd ..` at the root leaves the working
/// directory unchanged, whatever is mounted.
pub proof fn lemma_cd_command_up_at_root<F: Filesystem>(vfs: &VFS<F>, cwd: Seq<char>)
    requires
        cwd == seq!['/'],
    ensures
        spec_cd_target(vfs, cwd, ".."@) == cwd,
{
    lemma_cd_up_at_root(cwd);
}

/// Law, at the command level: `cd` into a directory that lists, followed by
/// `cd ..`, restores the exact working directory it started from.
pub proof fn lemma_cd_command_round_trip<F: Filesystem>(
    vfs: &VFS<F>,
    cwd: Seq<char>,
    sub: Seq<char>,
)
    requires
        cwd.len() > 0,
        cwd == seq!['/'] || cwd.last() != '/',
        sub.len() > 0,
        sub != ".."@,
        forall|i: int| 0 <= i < sub.len() ==> sub[i] != '/',
        vfs.reg_list_dir(spec_join(cwd, sub)) is Some,
    ensures
        spec_cd_target(vfs, spec_cd_target(vfs, cwd, sub), ".."@) == cwd,
{
    lemma_cd_round_trip(cwd, sub);
}

} // verus!
