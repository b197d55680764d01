//! The commands that the jobs have carried out: `rsync` for copies, `tar`
//! for archives. A command is data; carrying it out is left to the caller.

use crate::paths::{file_name, parent, spec_file_name, spec_parent};
use crate::text::{from_chars, push_str};
use vstd::prelude::*;
use vstd::string::*;

verus! {

/// A program with its arguments and the directory to run it in.
#[derive(Debug)]
pub struct Command {
    pub program: String,
    pub args: Vec<String>,
    pub current_dir: Option<String>,
}

/// A command as mathematical data.
pub struct CommandView {
    pub program: Seq<char>,
    pub args: Seq<Seq<char>>,
    pub current_dir: Option<Seq<char>>,
}

/// The texts of a list of arguments.
pub open spec fn arg_texts(args: Seq<String>) -> Seq<Seq<char>> {
    args.map_values(|s: String| s@)
}

impl View for Command {
    type V = CommandView;

    open spec fn view(&self) -> CommandView {
        CommandView {
            program: self.program@,
            args: arg_texts(self.args@),
            current_dir: match self.current_dir {
                Some(dir) => Some(dir@),
                None => None,
            },
        }
    }
}

/// One thing that a job asks to have done.
#[derive(Debug)]
pub enum Action {
    /// Create the directory and every directory above it that is missing.
    CreateDir { path: String },
    /// Run the command and wait until it ends.
    Run { command: Command },
}

/// An action as mathematical data.
pub enum ActionView {
    CreateDir { path: Seq<char> },
    Run { command: CommandView },
}

impl View for Action {
    type V = ActionView;

    open spec fn view(&self) -> ActionView {
        match *self {
            Action::CreateDir { path } => ActionView::CreateDir { path: path@ },
            Action::Run { command } => ActionView::Run { command: command@ },
        }
    }
}

/// How an action ended: whether it succeeded, and what it wrote about a
/// failure.
#[derive(Debug)]
pub struct Outcome {
    pub success: bool,
    pub message: String,
}

/// The views of a list of actions.
pub open spec fn action_views(actions: Seq<Action>) -> Seq<ActionView> {
    actions.map_values(|a: Action| a@)
}

/// The user and host of a remote as `rsync` wants them in front of a path:
/// `user@host`, or `host` alone where no user is given.
pub open spec fn spec_remote_prefix(host: Seq<char>, user: Option<Seq<char>>) -> Seq<char> {
    match user {
        Some(user) => user + seq!['@'] + host,
        None => host,
    }
}

/// A path on a remote as `rsync` wants it: `user@host:path`.
pub open spec fn spec_remote_path(host: Seq<char>, user: Option<Seq<char>>, path: Seq<char>) -> Seq<
    char,
> {
    spec_remote_prefix(host, user) + seq![':'] + path
}

/// `rsync --archive SOURCE DEST`.
pub open spec fn spec_rsync_full(source: Seq<char>, dest: Seq<char>) -> CommandView {
    CommandView { program: "rsync"@, args: seq!["--archive"@, source, dest], current_dir: None }
}

/// `rsync --archive --delete --link-dest LINK/ SOURCE DEST`.
pub open spec fn spec_rsync_incremental(link: Seq<char>, source: Seq<char>, dest: Seq<char>) -> CommandView {
    CommandView {
        program: "rsync"@,
        args: seq!["--archive"@, "--delete"@, "--link-dest"@, link + seq!['/'], source, dest],
        current_dir: None,
    }
}

/// `tar cf ARCHIVE --use-compress-program 'xz -T0' NAME`, run in the
/// directory that holds the source directory, `NAME` being its last name.
pub open spec fn spec_tar_xz(source_dir: Seq<char>, archive: Seq<char>) -> Option<CommandView> {
    match spec_parent(source_dir) {
        None => None,
        Some(dir) => Some(
            CommandView {
                program: "tar"@,
                args: seq![
                    "cf"@,
                    archive,
                    "--use-compress-program"@,
                    "xz -T0"@,
                    spec_file_name(source_dir),
                ],
                current_dir: Some(dir),
            },
        ),
    }
}

/// A path on a remote as `rsync` wants it.
pub fn remote_path(host: &str, remote_user: Option<&str>, path: &str) -> (r: String)
    ensures
        r@ == spec_remote_path(
            host@,
            match remote_user {
                Some(u) => Some(u@),
                None => None,
            },
            path@,
        ),
{
    proof {
        reveal_strlit("@");
        reveal_strlit(":");
        assert("@"@ =~= seq!['@']);
        assert(":"@ =~= seq![':']);
    }
    let mut out: Vec<char> = Vec::new();
    match remote_user {
        Some(user) => {
            push_str(&mut out, user);
            push_str(&mut out, "@");
        },
        None => {},
    }
    push_str(&mut out, host);
    push_str(&mut out, ":");
    push_str(&mut out, path);
    assert(out@ =~= spec_remote_path(
        host@,
        match remote_user {
            Some(u) => Some(u@),
            None => None,
        },
        path@,
    ));
    from_chars(&out)
}

/// The command that copies `source_dir` to `dest_dir` in full.
pub fn cmd_rsync_full(source_dir: &str, dest_dir: &str) -> (r: Command)
    ensures
        r@ == spec_rsync_full(source_dir@, dest_dir@),
{
    let mut args: Vec<String> = Vec::new();
    args.push(String::from_str("--archive"));
    args.push(String::from_str(source_dir));
    args.push(String::from_str(dest_dir));
    assert(arg_texts(args@) =~= seq!["--archive"@, source_dir@, dest_dir@]);
    Command { program: String::from_str("rsync"), args, current_dir: None }
}

/// The command that copies `source_dir` in full to `remote_dest_dir` on the
/// host `host`, as `remote_user` where a user is given.
pub fn cmd_rsync_full_ssh(
    source_dir: &str,
    host: &str,
    remote_user: Option<&str>,
    remote_dest_dir: &str,
) -> (r: Command)
    ensures
        r@ == spec_rsync_full(
            source_dir@,
            spec_remote_path(
                host@,
                match remote_user {
                    Some(u) => Some(u@),
                    None => None,
                },
                remote_dest_dir@,
            ),
        ),
{
    let dest = remote_path(host, remote_user, remote_dest_dir);
    cmd_rsync_full(source_dir, dest.as_str())
}

/// The command that copies `source_dir` to `dest_dir`, linking what has not
/// changed to its copy in `incremental_source_dir`.
pub fn cmd_rsync_incremental(incremental_source_dir: &str, source_dir: &str, dest_dir: &str) -> (r:
    Command)
    ensures
        r@ == spec_rsync_incremental(incremental_source_dir@, source_dir@, dest_dir@),
{
    proof {
        reveal_strlit("/");
        assert("/"@ =~= seq!['/']);
    }
    let mut link = String::from_str(incremental_source_dir);
    link.append("/");
    let mut args: Vec<String> = Vec::new();
    args.push(String::from_str("--archive"));
    args.push(String::from_str("--delete"));
    args.push(String::from_str("--link-dest"));
    args.push(link);
    args.push(String::from_str(source_dir));
    args.push(String::from_str(dest_dir));
    assert(arg_texts(args@) =~= seq![
        "--archive"@,
        "--delete"@,
        "--link-dest"@,
        incremental_source_dir@ + seq!['/'],
        source_dir@,
        dest_dir@,
    ]);
    Command { program: String::from_str("rsync"), args, current_dir: None }
}

/// The command that copies `source_dir` to `remote_dest_dir` on the host
/// `host`, linking what has not changed to its copy in
/// `remote_incremental_source_dir` on that host.
pub fn cmd_rsync_incremental_ssh(
    source_dir: &str,
    host: &str,
    remote_user: Option<&str>,
    remote_incremental_source_dir: &str,
    remote_dest_dir: &str,
) -> (r: Command)
    ensures
        ({
            let user = match remote_user {
                Some(u) => Some(u@),
                None => None,
            };
            r@ == spec_rsync_incremental(
                spec_remote_path(host@, user, remote_incremental_source_dir@),
                source_dir@,
                spec_remote_path(host@, user, remote_dest_dir@),
            )
        }),
{
    let link = remote_path(host, remote_user, remote_incremental_source_dir);
    let dest = remote_path(host, remote_user, remote_dest_dir);
    cmd_rsync_incremental(link.as_str(), source_dir, dest.as_str())
}

/// The command that packs `source_dir` into the compressed archive
/// `zip_file`; `None` where no directory holds `source_dir`.
pub fn cmd_tar_xz(source_dir: &str, zip_file: &str) -> (r: Option<Command>)
    ensures
        match r {
            Some(command) => spec_tar_xz(source_dir@, zip_file@) == Some(command@),
            None => spec_tar_xz(source_dir@, zip_file@) is None,
        },
{
    let dir = match parent(source_dir) {
        Some(dir) => dir,
        None => {
            return None;
        },
    };
    let name = file_name(source_dir);
    let mut args: Vec<String> = Vec::new();
    args.push(String::from_str("cf"));
    args.push(String::from_str(zip_file));
    args.push(String::from_str("--use-compress-program"));
    args.push(String::from_str("xz -T0"));
    args.push(name);
    assert(arg_texts(args@) =~= seq![
        "cf"@,
        zip_file@,
        "--use-compress-program"@,
        "xz -T0"@,
        spec_file_name(source_dir@),
    ]);
    Some(Command { program: String::from_str("tar"), args, current_dir: Some(dir) })
}

} // verus!
