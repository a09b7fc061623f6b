//! What the program does when it is started.
use crate::file_transfer::paths;
use crate::text;
use vstd::prelude::*;

verus! {

/// What the program is started for.
#[derive(Clone, Copy, PartialEq, Eq, Structural, Debug)]
pub enum Command {
    /// Try the emulation.
    TestEmulation,
    /// Try the capture.
    TestCapture,
    /// A command of the command line.
    Cli,
    /// The service.
    Daemon,
    /// The Windows service.
    Service,
    /// The worker of the Windows service.
    ServiceWorker,
}

/// What is run.
#[derive(Clone, Copy, PartialEq, Eq, Structural, Debug)]
pub enum RunPlan {
    /// The emulation test.
    TestEmulation,
    /// The capture test.
    TestCapture,
    /// The command line.
    Cli,
    /// The service in this process.
    Service,
    /// The entry point of the Windows service.
    Dispatch,
    /// The service in this process, as the worker of the Windows service.
    Worker,
    /// The service in another process, and the graphical frontend in this one.
    Frontend,
}

/// What is run for a command: without one the graphical frontend, or the service where the build
/// has none.
pub fn run(command: Option<Command>, has_frontend: bool) -> (r: RunPlan)
    ensures
        r == (match command {
            Some(Command::TestEmulation) => RunPlan::TestEmulation,
            Some(Command::TestCapture) => RunPlan::TestCapture,
            Some(Command::Cli) => RunPlan::Cli,
            Some(Command::Daemon) => RunPlan::Service,
            Some(Command::Service) => RunPlan::Dispatch,
            Some(Command::ServiceWorker) => RunPlan::Worker,
            None => if has_frontend {
                RunPlan::Frontend
            } else {
                RunPlan::Service
            },
        }),
{
    match command {
        Some(Command::TestEmulation) => RunPlan::TestEmulation,
        Some(Command::TestCapture) => RunPlan::TestCapture,
        Some(Command::Cli) => RunPlan::Cli,
        Some(Command::Daemon) => RunPlan::Service,
        Some(Command::Service) => RunPlan::Dispatch,
        Some(Command::ServiceWorker) => RunPlan::Worker,
        None => if has_frontend {
            RunPlan::Frontend
        } else {
            RunPlan::Service
        },
    }
}

/// How the service ended.
#[derive(Debug)]
pub enum ServiceEnd {
    /// It was stopped.
    Stopped,
    /// Another one runs already.
    AlreadyRunning,
    /// It failed; holds the reason.
    Failed(String),
}

/// What is logged at the end of the service; a failure is handed on, another running service is
/// none.
pub fn service_ended(end: ServiceEnd, worker: bool) -> (r: Result<&'static str, String>)
    ensures
        match end {
            ServiceEnd::Stopped => r is Ok && r->Ok_0@ == "service exited!"@,
            ServiceEnd::AlreadyRunning => r is Ok && r->Ok_0@ == (if worker {
                "service-worker: daemon already running on this host"@
            } else {
                "service already running!"@
            }),
            ServiceEnd::Failed(e) => r is Err && r->Err_0@ == e@,
        },
{
    match end {
        ServiceEnd::Stopped => Ok("service exited!"),
        ServiceEnd::AlreadyRunning => Ok(
            if worker {
                "service-worker: daemon already running on this host"
            } else {
                "service already running!"
            },
        ),
        ServiceEnd::Failed(e) => Err(e),
    }
}

/// The arguments of the service that a frontend starts: its own, and the command.
pub fn service_args(own_args: &Vec<String>) -> (r: Vec<String>)
    ensures
        text::views(r@) == text::views(own_args@).push("daemon"@),
{
    let mut r: Vec<String> = text::clone_strings(own_args);
    let daemon: String = "daemon".to_owned();
    proof {
        text::lemma_views_push(r@, daemon);
    }
    r.push(daemon);
    r
}

/// The program that a launcher starts: `bin/lan-mouse` beside the launcher.
pub open spec fn launched(exe: Seq<char>, windows: bool) -> Option<Seq<char>> {
    match paths::parent(exe) {
        Some(dir) => Some(
            paths::joined(
                paths::joined(dir, "bin"@),
                if windows {
                    "lan-mouse.exe"@
                } else {
                    "lan-mouse"@
                },
            ),
        ),
        None => None,
    }
}

/// The program that a launcher starts; none where the launcher lies in no directory.
pub fn launch_target(exe: &str, windows: bool) -> (r: Option<String>)
    ensures
        text::opt_view(r) == launched(exe@, windows),
{
    match paths::parent_path(exe) {
        Some(dir) => {
            let bin: String = paths::join_path(dir.as_str(), "bin");
            let name: &str = if windows {
                "lan-mouse.exe"
            } else {
                "lan-mouse"
            };
            Some(paths::join_path(bin.as_str(), name))
        },
        None => None,
    }
}

/// A launcher starts the program in the directory `bin` beside it, under the name that the system
/// gives programs.
pub proof fn law_launched(dir: Seq<char>, name: Seq<char>)
    requires
        paths::clean_component(name),
        dir.len() > 0,
        dir.last() != '/',
        paths::trimmed_path(dir) == dir,
    ensures
        launched(dir.push('/') + name, false) == Some(dir + "/bin/lan-mouse"@),
        launched(dir.push('/') + name, true) == Some(dir + "/bin/lan-mouse.exe"@),
{
    paths::law_part_path(dir, name);
    reveal_strlit("bin");
    reveal_strlit("lan-mouse");
    reveal_strlit("lan-mouse.exe");
    reveal_strlit("/bin/lan-mouse");
    reveal_strlit("/bin/lan-mouse.exe");
    let b = paths::joined(dir, "bin"@);
    assert(b =~= dir + "/bin"@) by {
        reveal_strlit("/bin");
    }
    assert(b.last() == 'n');
    assert(paths::joined(b, "lan-mouse"@) =~= dir + "/bin/lan-mouse"@);
    assert(paths::joined(b, "lan-mouse.exe"@) =~= dir + "/bin/lan-mouse.exe"@);
}

} // verus!
