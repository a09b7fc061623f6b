//! The Windows service: its registration, its entry point and the worker in the user's session.
use crate::text;
use vstd::prelude::*;

pub mod supervisor;
pub mod worker;

verus! {

/// Name of the service, kept stable, as an installed service is found by it.
pub const SERVICE_NAME: &'static str = "LanMousePlus";

/// Name shown to the user.
pub const SERVICE_DISPLAY_NAME: &'static str = "Lan Mouse+";

/// Description shown to the user.
pub const SERVICE_DESCRIPTION: &'static str =
    "Lan Mouse+ daemon for cross-PC mouse, keyboard, and clipboard sharing.";

/// Code of the system's error for a service that does not exist.
pub const ERROR_SERVICE_DOES_NOT_EXIST: i32 = 1060;

/// Why an operation on the service failed.
#[derive(Debug)]
pub enum Error {
    /// The service manager refused; holds its words.
    Win(String),
    /// The service is already installed.
    AlreadyInstalled,
    /// The service is not installed.
    NotInstalled,
    /// A call into the system failed; holds the call's name and the system's words.
    Os(String, String),
}

/// Contents of an [`Error`].
#[verifier::ext_equal]
pub enum ErrorView {
    /// See [`Error::Win`].
    Win(Seq<char>),
    /// See [`Error::AlreadyInstalled`].
    AlreadyInstalled,
    /// See [`Error::NotInstalled`].
    NotInstalled,
    /// See [`Error::Os`].
    Os(Seq<char>, Seq<char>),
}

impl View for Error {
    type V = ErrorView;

    open spec fn view(&self) -> ErrorView {
        match self {
            Error::Win(e) => ErrorView::Win(e@),
            Error::AlreadyInstalled => ErrorView::AlreadyInstalled,
            Error::NotInstalled => ErrorView::NotInstalled,
            Error::Os(call, e) => ErrorView::Os(call@, e@),
        }
    }
}

/// What the user is told of an error.
pub open spec fn error_message(e: ErrorView) -> Seq<char> {
    match e {
        ErrorView::Win(e) => "windows-service error: "@ + e,
        ErrorView::AlreadyInstalled => "service is already installed"@,
        ErrorView::NotInstalled => "service is not installed"@,
        ErrorView::Os(call, e) => "Win32 "@ + call + ": "@ + e,
    }
}

impl Error {
    /// What the user is told.
    pub fn message(&self) -> (r: String)
        ensures
            r@ == error_message(self@),
    {
        match self {
            Error::Win(e) => text::concat2("windows-service error: ", e.as_str()),
            Error::AlreadyInstalled => "service is already installed".to_owned(),
            Error::NotInstalled => "service is not installed".to_owned(),
            Error::Os(call, e) => {
                let head: String = text::concat3("Win32 ", call.as_str(), ": ");
                text::concat2(head.as_str(), e.as_str())
            },
        }
    }
}

// ----- registration ---------------------------------------------------------

/// What the service is registered as: a process of its own that starts with the system, under
/// the account of the system.
#[derive(Debug)]
pub struct ServiceDefinition {
    /// Name.
    pub name: String,
    /// Name shown to the user.
    pub display_name: String,
    /// Description shown to the user.
    pub description: String,
    /// Program that is started.
    pub executable_path: String,
    /// Its arguments.
    pub launch_arguments: Vec<String>,
}

/// What is registered for a program, given whether a service of that name was found.
pub fn install(already_installed: bool, exe_path: &str) -> (r: Result<ServiceDefinition, Error>)
    ensures
        already_installed ==> r is Err && r->Err_0@ == ErrorView::AlreadyInstalled,
        !already_installed ==> {
            &&& r is Ok
            &&& r->Ok_0.name@ == SERVICE_NAME@
            &&& r->Ok_0.display_name@ == SERVICE_DISPLAY_NAME@
            &&& r->Ok_0.description@ == SERVICE_DESCRIPTION@
            &&& r->Ok_0.executable_path@ == exe_path@
            &&& text::views(r->Ok_0.launch_arguments@) == seq!["service"@]
        },
{
    if already_installed {
        return Err(Error::AlreadyInstalled);
    }
    let mut launch_arguments: Vec<String> = Vec::new();
    launch_arguments.push("service".to_owned());
    assert(text::views(launch_arguments@) =~= seq!["service"@]);
    Ok(
        ServiceDefinition {
            name: SERVICE_NAME.to_owned(),
            display_name: SERVICE_DISPLAY_NAME.to_owned(),
            description: SERVICE_DESCRIPTION.to_owned(),
            executable_path: exe_path.to_owned(),
            launch_arguments,
        },
    )
}

/// State of a service, as the service manager tells it.
#[derive(Clone, Copy, PartialEq, Eq, Structural, Debug)]
pub enum ServiceState {
    /// It does not run.
    Stopped,
    /// It is starting.
    StartPending,
    /// It is stopping.
    StopPending,
    /// It runs.
    Running,
    /// Anything else.
    Other,
}

/// State of the service, as the user is told.
#[derive(Clone, Copy, PartialEq, Eq, Structural, Debug)]
pub enum InstalledState {
    /// There is no such service.
    NotInstalled,
    /// It does not run.
    Stopped,
    /// It is starting.
    StartPending,
    /// It is stopping.
    StopPending,
    /// It runs.
    Running,
    /// Anything else.
    Other,
}

/// The name of a state.
pub open spec fn state_name(s: InstalledState) -> Seq<char> {
    match s {
        InstalledState::NotInstalled => "NotInstalled"@,
        InstalledState::Stopped => "Stopped"@,
        InstalledState::StartPending => "StartPending"@,
        InstalledState::StopPending => "StopPending"@,
        InstalledState::Running => "Running"@,
        InstalledState::Other => "Other"@,
    }
}

impl InstalledState {
    /// The name of the state.
    pub fn name(&self) -> (r: &'static str)
        ensures
            r@ == state_name(*self),
    {
        match self {
            InstalledState::NotInstalled => "NotInstalled",
            InstalledState::Stopped => "Stopped",
            InstalledState::StartPending => "StartPending",
            InstalledState::StopPending => "StopPending",
            InstalledState::Running => "Running",
            InstalledState::Other => "Other",
        }
    }
}

/// The state that the user is told of an installed service.
pub open spec fn installed_state(s: ServiceState) -> InstalledState {
    match s {
        ServiceState::Stopped => InstalledState::Stopped,
        ServiceState::StartPending => InstalledState::StartPending,
        ServiceState::StopPending => InstalledState::StopPending,
        ServiceState::Running => InstalledState::Running,
        ServiceState::Other => InstalledState::Other,
    }
}

/// What came of asking the service manager for the service.
#[derive(Debug)]
pub enum ServiceQuery {
    /// The service is in a state.
    State(ServiceState),
    /// The system refused, with a code where there is one, and its words.
    Refused(Option<i32>, String),
}

/// The state of the service. A service that does not exist is a state, any other refusal an
/// error.
pub fn status(query: ServiceQuery) -> (r: Result<InstalledState, Error>)
    ensures
        match query {
            ServiceQuery::State(s) => r == Ok::<InstalledState, Error>(installed_state(s)),
            ServiceQuery::Refused(code, words) => if code == Some(ERROR_SERVICE_DOES_NOT_EXIST) {
                r == Ok::<InstalledState, Error>(InstalledState::NotInstalled)
            } else {
                r is Err && r->Err_0@ == ErrorView::Win(words@)
            },
        },
{
    match query {
        ServiceQuery::State(s) => Ok(
            match s {
                ServiceState::Stopped => InstalledState::Stopped,
                ServiceState::StartPending => InstalledState::StartPending,
                ServiceState::StopPending => InstalledState::StopPending,
                ServiceState::Running => InstalledState::Running,
                ServiceState::Other => InstalledState::Other,
            },
        ),
        ServiceQuery::Refused(code, words) => match code {
            Some(c) => if c == ERROR_SERVICE_DOES_NOT_EXIST {
                Ok(InstalledState::NotInstalled)
            } else {
                Err(Error::Win(words))
            },
            None => Err(Error::Win(words)),
        },
    }
}

/// A step of an uninstallation.
#[derive(Clone, Copy, PartialEq, Eq, Structural, Debug)]
pub enum UninstallAction {
    /// Stop the service; a failure does not matter.
    Stop,
    /// Wait, in seconds.
    Wait(u64),
    /// Delete the service.
    Delete,
}

/// What uninstalls the service: one that runs is stopped first. A service that does not exist is
/// not installed, any other refusal is handed on; nothing is done then.
pub fn uninstall(query: ServiceQuery) -> (r: Result<Vec<UninstallAction>, Error>)
    ensures
        match query {
            ServiceQuery::State(ServiceState::Stopped) => r is Ok && r->Ok_0@ == seq![
                UninstallAction::Delete,
            ],
            ServiceQuery::State(_) => r is Ok && r->Ok_0@ == seq![
                UninstallAction::Stop,
                UninstallAction::Wait(1),
                UninstallAction::Delete,
            ],
            ServiceQuery::Refused(code, words) => r is Err && r->Err_0@ == (if code == Some(
                ERROR_SERVICE_DOES_NOT_EXIST,
            ) {
                ErrorView::NotInstalled
            } else {
                ErrorView::Win(words@)
            }),
        },
{
    let state: ServiceState = match query {
        ServiceQuery::State(s) => s,
        ServiceQuery::Refused(code, words) => {
            return match code {
                Some(c) => if c == ERROR_SERVICE_DOES_NOT_EXIST {
                    Err(Error::NotInstalled)
                } else {
                    Err(Error::Win(words))
                },
                None => Err(Error::Win(words)),
            };
        },
    };
    let mut r: Vec<UninstallAction> = Vec::new();
    if state != ServiceState::Stopped {
        r.push(UninstallAction::Stop);
        r.push(UninstallAction::Wait(1));
    }
    r.push(UninstallAction::Delete);
    Ok(r)
}

// ----- entry point ----------------------------------------------------------

/// A control that the service manager sends.
#[derive(Clone, Copy, PartialEq, Eq, Structural, Debug)]
pub enum ServiceControl {
    /// Stop.
    Stop,
    /// The system shuts down.
    Shutdown,
    /// Report the state.
    Interrogate,
    /// Anything else.
    Other,
}

/// The answer to a control.
#[derive(Clone, Copy, PartialEq, Eq, Structural, Debug)]
pub enum ControlResult {
    /// Taken.
    NoError,
    /// Not supported.
    NotImplemented,
}

/// Takes a control: whether the service is to shut down from now on, and the answer.
pub fn on_control(shutdown: bool, control: ServiceControl) -> (r: (bool, ControlResult))
    ensures
        r.0 == (shutdown || control == ServiceControl::Stop || control
            == ServiceControl::Shutdown),
        r.1 == (if control == ServiceControl::Other {
            ControlResult::NotImplemented
        } else {
            ControlResult::NoError
        }),
{
    match control {
        ServiceControl::Stop | ServiceControl::Shutdown => (true, ControlResult::NoError),
        ServiceControl::Interrogate => (shutdown, ControlResult::NoError),
        ServiceControl::Other => (shutdown, ControlResult::NotImplemented),
    }
}

/// A step of the service.
#[derive(Clone, Copy, PartialEq, Eq, Structural, Debug)]
pub enum ServiceStep {
    /// Tell the service manager that the service runs and takes stop and shutdown.
    ReportRunning,
    /// Keep a worker running until the shutdown.
    Supervise,
    /// Tell the service manager that the service has stopped.
    ReportStopped,
}

/// What the service does, given whether its control handler could be registered and its own
/// program found.
pub fn service_main(registered: bool, exe_found: bool) -> (r: Vec<ServiceStep>)
    ensures
        !registered ==> r@.len() == 0,
        registered && exe_found ==> r@ == seq![
            ServiceStep::ReportRunning,
            ServiceStep::Supervise,
            ServiceStep::ReportStopped,
        ],
        registered && !exe_found ==> r@ == seq![
            ServiceStep::ReportRunning,
            ServiceStep::ReportStopped,
        ],
{
    let mut r: Vec<ServiceStep> = Vec::new();
    if registered {
        r.push(ServiceStep::ReportRunning);
        if exe_found {
            r.push(ServiceStep::Supervise);
        }
        r.push(ServiceStep::ReportStopped);
    }
    r
}

/// The error of the system ends what the user is told of it.
pub proof fn law_error_message(words: Seq<char>, call: Seq<char>)
    ensures
        words.is_suffix_of(error_message(ErrorView::Win(words))),
        (call + ": "@ + words).is_suffix_of(error_message(ErrorView::Os(call, words))),
        error_message(ErrorView::AlreadyInstalled) == "service is already installed"@,
        error_message(ErrorView::NotInstalled) == "service is not installed"@,
{
    let a = error_message(ErrorView::Win(words));
    assert(a.subrange(a.len() - words.len(), a.len() as int) =~= words);
    let b = error_message(ErrorView::Os(call, words));
    let t = call + ": "@ + words;
    assert(b.subrange(b.len() - t.len(), b.len() as int) =~= t);
}

/// Each state has its own name.
pub proof fn law_state_names(a: InstalledState, b: InstalledState)
    ensures
        state_name(a) == state_name(b) ==> a == b,
{
    reveal_strlit("NotInstalled");
    reveal_strlit("Stopped");
    reveal_strlit("StartPending");
    reveal_strlit("StopPending");
    reveal_strlit("Running");
    reveal_strlit("Other");
    assert("NotInstalled"@[0] == 'N' && "Stopped"@[2] == 'o' && "Stopped"@.len() == 7);
    assert("StartPending"@[2] == 'a' && "StopPending"@.len() == 11 && "StopPending"@[0] == 'S');
    assert("Running"@[0] == 'R' && "Other"@[0] == 'O' && "StartPending"@[0] == 'S');
    assert("Stopped"@[0] == 'S' && "StartPending"@.len() == 12 && "NotInstalled"@.len() == 12);
}

/// The state of an installed service is told as it is.
pub proof fn law_installed_state()
    ensures
        installed_state(ServiceState::Stopped) == InstalledState::Stopped,
        installed_state(ServiceState::StartPending) == InstalledState::StartPending,
        installed_state(ServiceState::StopPending) == InstalledState::StopPending,
        installed_state(ServiceState::Running) == InstalledState::Running,
        installed_state(ServiceState::Other) == InstalledState::Other,
{
}

} // verus!
