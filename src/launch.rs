use vstd::prelude::*;
use crate::listing::views;
use crate::platform::Platform;

verus! {

/// What is to be opened: a folder in the file explorer, or a file with the
/// application associated with it.
#[derive(Clone, Copy, Debug, PartialEq, Eq, Structural)]
pub enum OpenTarget {
    Folder,
    File,
}

/// A process to start and not wait for.
pub struct LaunchCommand {
    pub program: String,
    pub args: Vec<String>,
}

/// The opener program for `t` on `p`; `None` where no opener is known.
pub open spec fn launch_program(p: Platform, t: OpenTarget) -> Option<Seq<char>> {
    match p {
        Platform::Windows => if t is Folder {
            Some("explorer"@)
        } else {
            Some("cmd"@)
        },
        Platform::MacOs => Some("open"@),
        Platform::Linux => Some("xdg-open"@),
        Platform::Other => None,
    }
}

/// The arguments handed to the opener for `path`.
pub open spec fn launch_args(p: Platform, t: OpenTarget, path: Seq<char>) -> Seq<Seq<char>> {
    if p is Windows && t is File {
        seq!["/C"@, "start"@, ""@, path]
    } else {
        seq![path]
    }
}

/// The command that opens `path` as `t` on `p`: `explorer` for folders and
/// `cmd /C start "" <path>` for files on Windows, `open` on macOS,
/// `xdg-open` on Linux, and nothing on other hosts.
pub fn launch_command(p: Platform, t: OpenTarget, path: &str) -> (r: Option<LaunchCommand>)
    ensures
        r is Some <==> launch_program(p, t) is Some,
        r is Some ==> r->0.program@ == launch_program(p, t)->0 && views(r->0.args@)
            == launch_args(p, t, path@),
{
    let program = match p {
        Platform::Windows => match t {
            OpenTarget::Folder => "explorer",
            OpenTarget::File => "cmd",
        },
        Platform::MacOs => "open",
        Platform::Linux => "xdg-open",
        Platform::Other => {
            return None;
        },
    };
    let mut args: Vec<String> = Vec::new();
    match (p, t) {
        (Platform::Windows, OpenTarget::File) => {
            args.push(String::from_str("/C"));
            args.push(String::from_str("start"));
            args.push(String::from_str(""));
        },
        _ => {},
    }
    args.push(String::from_str(path));
    let r = LaunchCommand { program: String::from_str(program), args };
    assert(views(r.args@) =~= launch_args(p, t, path@));
    Some(r)
}

/// Why an operation failed.
pub enum Failure {
    /// The path to open does not exist.
    Missing { target: OpenTarget, path: String },
    /// The opener could not be started; `detail` is the system's reason.
    Launch { target: OpenTarget, detail: String },
    /// Whether a path exists could not be found out.
    Probe { detail: String },
    /// A directory could not be read.
    ReadDir { detail: String },
}

/// The message reported for a failure.
pub open spec fn failure_text(f: Failure) -> Seq<char> {
    match f {
        Failure::Missing { target, path } => if target is Folder {
            "Path does not exist: "@ + path@
        } else {
            "File does not exist: "@ + path@
        },
        Failure::Launch { target, detail } => if target is Folder {
            "Failed to open folder: "@ + detail@
        } else {
            "Failed to open file: "@ + detail@
        },
        Failure::Probe { detail } => "Failed to check path: "@ + detail@,
        Failure::ReadDir { detail } => "Failed to read directory: "@ + detail@,
    }
}

impl Failure {
    /// The message reported to the caller.
    pub fn message(&self) -> (r: String)
        ensures
            r@ == failure_text(*self),
    {
        let (prefix, detail) = match self {
            Failure::Missing { target: OpenTarget::Folder, path } => ("Path does not exist: ", path),
            Failure::Missing { target: OpenTarget::File, path } => ("File does not exist: ", path),
            Failure::Launch { target: OpenTarget::Folder, detail } => (
                "Failed to open folder: ",
                detail,
            ),
            Failure::Launch { target: OpenTarget::File, detail } => ("Failed to open file: ", detail),
            Failure::Probe { detail } => ("Failed to check path: ", detail),
            Failure::ReadDir { detail } => ("Failed to read directory: ", detail),
        };
        let mut r = String::from_str(prefix);
        r.append(detail.as_str());
        r
    }
}

/// What to do to open a path that was found to exist.
pub struct OpenPlan {
    /// The path that is opened, and reported back on success.
    pub path: String,
    /// The process to start, if the host has an opener.
    pub command: Option<LaunchCommand>,
}

/// The plan for opening `path` as `t`: an error naming the path when it does
/// not exist, in which case nothing is to be started; otherwise the opener
/// command for the host.
pub open spec fn plan_ok(p: Platform, t: OpenTarget, path: Seq<char>, plan: OpenPlan) -> bool {
    &&& plan.path@ == path
    &&& plan.command is Some <==> launch_program(p, t) is Some
    &&& plan.command is Some ==> plan.command->0.program@ == launch_program(p, t)->0
        && views(plan.command->0.args@) == launch_args(p, t, path)
}

/// Decides how to open `path` as `t`, given whether it exists.
pub fn plan_open(p: Platform, t: OpenTarget, path: String, exists: bool) -> (r: Result<
    OpenPlan,
    String,
>)
    ensures
        r is Err <==> !exists,
        r is Err ==> r->Err_0@ == failure_text(Failure::Missing { target: t, path }),
        r is Ok ==> plan_ok(p, t, path@, r->Ok_0),
{
    if !exists {
        let f = Failure::Missing { target: t, path };
        return Err(f.message());
    }
    let command = launch_command(p, t, path.as_str());
    Ok(OpenPlan { path, command })
}

/// Opening a folder: fails with `Path does not exist: <path>` when the
/// folder is absent, and otherwise starts the host's file explorer on it.
pub fn open_folder(p: Platform, path: String, exists: bool) -> (r: Result<OpenPlan, String>)
    ensures
        r is Err <==> !exists,
        r is Err ==> r->Err_0@ == "Path does not exist: "@ + path@,
        r is Ok ==> plan_ok(p, OpenTarget::Folder, path@, r->Ok_0),
{
    plan_open(p, OpenTarget::Folder, path, exists)
}

/// Opening a file: fails with `File does not exist: <path>` when the file
/// is absent, and otherwise starts the host's default application on it.
pub fn open_file(p: Platform, path: String, exists: bool) -> (r: Result<OpenPlan, String>)
    ensures
        r is Err <==> !exists,
        r is Err ==> r->Err_0@ == "File does not exist: "@ + path@,
        r is Ok ==> plan_ok(p, OpenTarget::File, path@, r->Ok_0),
{
    plan_open(p, OpenTarget::File, path, exists)
}

/// The answer to whether a path exists, from what probing it gave: the
/// probe's answer, or the message for a probe that failed. A path that is
/// simply absent is no failure.
pub fn check_path_exists(probe: Result<bool, String>) -> (r: Result<bool, String>)
    ensures
        probe is Ok ==> r == probe,
        probe is Err ==> r is Err && r->Err_0@ == "Failed to check path: "@ + probe->Err_0@,
{
    match probe {
        Ok(b) => Ok(b),
        Err(detail) => Err(Failure::Probe { detail }.message()),
    }
}

} // verus!
