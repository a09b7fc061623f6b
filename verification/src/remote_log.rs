//! Shipping log entries to a log server: registration, and batches.
use crate::file_transfer::paths;
use crate::text;
use vstd::prelude::*;

verus! {

/// Log server that is used where none is named.
pub const DEFAULT_HOST: &'static str = "https://logger.cyberbook.id";

/// File that the registration is kept in.
pub const TOKEN_FILE: &'static str = "remote-log-token.json";

/// File that the state of the shipping is kept in.
pub const STATUS_FILE: &'static str = "remote-log-status.txt";

/// How long entries are collected, in milliseconds.
pub const BATCH_INTERVAL: u64 = 1000;

/// Most entries of a batch.
pub const MAX_BATCH: usize = 256;

/// Most entries that wait to be shipped; further ones are dropped.
pub const QUEUE_CAP: usize = 4096;

// ----- levels ---------------------------------------------------------------

/// Severity of an entry.
#[derive(Clone, Copy, PartialEq, Eq, Structural, Debug)]
pub enum Level {
    /// Errors.
    Error,
    /// Warnings.
    Warn,
    /// Information.
    Info,
    /// Debugging.
    Debug,
    /// Tracing.
    Trace,
}

/// The name of a severity.
pub open spec fn level_name(l: Level) -> Seq<char> {
    match l {
        Level::Error => "error"@,
        Level::Warn => "warn"@,
        Level::Info => "info"@,
        Level::Debug => "debug"@,
        Level::Trace => "trace"@,
    }
}

/// The name of a severity.
pub fn level_str(l: Level) -> (r: &'static str)
    ensures
        r@ == level_name(l),
{
    match l {
        Level::Error => "error",
        Level::Warn => "warn",
        Level::Info => "info",
        Level::Debug => "debug",
        Level::Trace => "trace",
    }
}

// ----- files ----------------------------------------------------------------

/// Directories that the configuration may be kept in.
#[derive(Debug)]
pub struct ConfigDirs {
    /// Configuration directory of the session.
    pub xdg_config_home: Option<String>,
    /// Home directory.
    pub home: Option<String>,
    /// Application data directory.
    pub appdata: Option<String>,
}

/// The configuration directory: below that of the session, the home directory or the application
/// data directory, the first that is set.
pub open spec fn config_dir_of(d: ConfigDirs) -> Option<Seq<char>> {
    if d.xdg_config_home is Some {
        Some(paths::joined(d.xdg_config_home->0@, "lan-mouse"@))
    } else if d.home is Some {
        Some(paths::joined(paths::joined(d.home->0@, ".config"@), "lan-mouse"@))
    } else if d.appdata is Some {
        Some(paths::joined(d.appdata->0@, "lan-mouse"@))
    } else {
        None
    }
}

/// What the user is told where no directory is set.
pub open spec fn no_dir_message() -> Seq<char> {
    "no XDG_CONFIG_HOME / HOME / APPDATA in env"@
}

/// The configuration directory.
pub fn config_dir(dirs: &ConfigDirs) -> (r: Result<String, String>)
    ensures
        match config_dir_of(*dirs) {
            Some(d) => r is Ok && r->Ok_0@ == d,
            None => r is Err && r->Err_0@ == no_dir_message(),
        },
{
    match &dirs.xdg_config_home {
        Some(d) => {
            return Ok(paths::join_path(d.as_str(), "lan-mouse"));
        },
        None => {},
    }
    match &dirs.home {
        Some(d) => {
            let base: String = paths::join_path(d.as_str(), ".config");
            return Ok(paths::join_path(base.as_str(), "lan-mouse"));
        },
        None => {},
    }
    match &dirs.appdata {
        Some(d) => Ok(paths::join_path(d.as_str(), "lan-mouse")),
        None => Err("no XDG_CONFIG_HOME / HOME / APPDATA in env".to_owned()),
    }
}

/// The file of the registration in a configuration directory.
pub open spec fn token_path_in(dir: Seq<char>) -> Seq<char> {
    paths::joined(dir, TOKEN_FILE@)
}

/// The file of the registration.
pub fn token_path(dirs: &ConfigDirs) -> (r: Result<String, String>)
    ensures
        match config_dir_of(*dirs) {
            Some(d) => r is Ok && r->Ok_0@ == token_path_in(d),
            None => r is Err && r->Err_0@ == no_dir_message(),
        },
{
    match config_dir(dirs) {
        Ok(d) => Ok(paths::join_path(d.as_str(), TOKEN_FILE)),
        Err(e) => Err(e),
    }
}

/// A line of the state file, written at a time in seconds by a process.
pub fn status_entry(now: u64, pid: u32, line: &str) -> (r: String)
    ensures
        r@ == "ts="@ + text::dec(now as nat) + " pid="@ + text::dec(pid as nat) + "  "@ + line@
            + "\n"@,
{
    let t: String = text::dec_string(now);
    let p: String = text::dec_string(pid as u64);
    let a: String = text::concat3("ts=", t.as_str(), " pid=");
    let b: String = text::concat3(a.as_str(), p.as_str(), "  ");
    text::concat3(b.as_str(), line, "\n")
}

// ----- registration ---------------------------------------------------------

/// What stays the same of this host and build.
#[derive(Debug)]
pub struct ClientMetadata {
    /// Operating system.
    pub os: String,
    /// Architecture.
    pub arch: String,
    /// Hostname.
    pub hostname: String,
    /// Version.
    pub version: String,
    /// Commit.
    pub commit: String,
    /// Branch.
    pub branch: String,
    /// Time of the build.
    pub build_time: String,
}

/// Contents of [`ClientMetadata`].
#[verifier::ext_equal]
pub struct ClientMetadataView {
    /// See [`ClientMetadata::os`].
    pub os: Seq<char>,
    /// See [`ClientMetadata::arch`].
    pub arch: Seq<char>,
    /// See [`ClientMetadata::hostname`].
    pub hostname: Seq<char>,
    /// See [`ClientMetadata::version`].
    pub version: Seq<char>,
    /// See [`ClientMetadata::commit`].
    pub commit: Seq<char>,
    /// See [`ClientMetadata::branch`].
    pub branch: Seq<char>,
    /// See [`ClientMetadata::build_time`].
    pub build_time: Seq<char>,
}

impl View for ClientMetadata {
    type V = ClientMetadataView;

    open spec fn view(&self) -> ClientMetadataView {
        ClientMetadataView {
            os: self.os@,
            arch: self.arch@,
            hostname: self.hostname@,
            version: self.version@,
            commit: self.commit@,
            branch: self.branch@,
            build_time: self.build_time@,
        }
    }
}

impl Clone for ClientMetadata {
    fn clone(&self) -> (r: ClientMetadata)
        ensures
            r@ == self@,
    {
        ClientMetadata {
            os: self.os.clone(),
            arch: self.arch.clone(),
            hostname: self.hostname.clone(),
            version: self.version.clone(),
            commit: self.commit.clone(),
            branch: self.branch.clone(),
            build_time: self.build_time.clone(),
        }
    }
}

impl ClientMetadata {
    /// Whether two hold the same.
    pub fn same(&self, other: &ClientMetadata) -> (r: bool)
        ensures
            r == (self@ == other@),
    {
        text::str_eq(self.os.as_str(), other.os.as_str()) && text::str_eq(
            self.arch.as_str(),
            other.arch.as_str(),
        ) && text::str_eq(self.hostname.as_str(), other.hostname.as_str()) && text::str_eq(
            self.version.as_str(),
            other.version.as_str(),
        ) && text::str_eq(self.commit.as_str(), other.commit.as_str()) && text::str_eq(
            self.branch.as_str(),
            other.branch.as_str(),
        ) && text::str_eq(self.build_time.as_str(), other.build_time.as_str())
    }
}

/// The registration of this host.
#[derive(Debug)]
pub struct TokenCache {
    /// Number of the host at the server.
    pub client_id: String,
    /// What authorizes this host.
    pub token: String,
    /// Name of the host at the server.
    pub name: String,
    /// What the server was last told of this host; none where it is unknown.
    pub metadata: Option<ClientMetadata>,
}

/// Contents of a [`TokenCache`].
#[verifier::ext_equal]
pub struct TokenCacheView {
    /// See [`TokenCache::client_id`].
    pub client_id: Seq<char>,
    /// See [`TokenCache::token`].
    pub token: Seq<char>,
    /// See [`TokenCache::name`].
    pub name: Seq<char>,
    /// See [`TokenCache::metadata`].
    pub metadata: Option<ClientMetadataView>,
}

impl View for TokenCache {
    type V = TokenCacheView;

    open spec fn view(&self) -> TokenCacheView {
        TokenCacheView {
            client_id: self.client_id@,
            token: self.token@,
            name: self.name@,
            metadata: match self.metadata {
                Some(m) => Some(m@),
                None => None,
            },
        }
    }
}

/// The contents of an optional registration.
pub open spec fn opt_cache_view(c: Option<TokenCache>) -> Option<TokenCacheView> {
    match c {
        Some(c) => Some(c@),
        None => None,
    }
}

/// A kept registration counts where it is under the name of this host and holds a token.
pub open spec fn usable_entry(cached: Option<TokenCacheView>, name: Seq<char>) -> Option<
    TokenCacheView,
> {
    match cached {
        Some(c) if c.name == name && c.token.len() > 0 => Some(c),
        _ => None,
    }
}

/// The registration that was kept, where it counts.
pub fn load_cached_entry(cached: Option<TokenCache>, client_name: &str) -> (r: Option<TokenCache>)
    ensures
        opt_cache_view(r) == usable_entry(opt_cache_view(cached), client_name@),
{
    match cached {
        Some(c) => if text::str_eq(c.name.as_str(), client_name) && text::chars_of(
            c.token.as_str(),
        ).len() > 0 {
            Some(c)
        } else {
            None
        },
        None => None,
    }
}

/// The key to register with: the first that is set, unless it is blank.
pub open spec fn api_key(cb_key: Option<Seq<char>>, logger_key: Option<Seq<char>>) -> Option<
    Seq<char>,
> {
    let key = if cb_key is Some {
        cb_key
    } else {
        logger_key
    };
    match key {
        Some(k) if text::trim(k).len() > 0 => Some(k),
        _ => None,
    }
}

/// The key to register with.
pub fn read_api_key(cb_key: Option<String>, logger_key: Option<String>) -> (r: Option<String>)
    ensures
        text::opt_view(r) == api_key(text::opt_view(cb_key), text::opt_view(logger_key)),
{
    let key: Option<String> = match cb_key {
        Some(k) => Some(k),
        None => logger_key,
    };
    match key {
        Some(k) => {
            let t: String = text::trimmed(k.as_str());
            if text::chars_of(t.as_str()).len() > 0 {
                Some(k)
            } else {
                None
            }
        },
        None => None,
    }
}

/// What the start of the shipping depends on.
#[derive(Debug)]
pub struct RemoteEnv {
    /// Whether it is turned off.
    pub disabled: bool,
    /// Log server, where one is named.
    pub host: Option<String>,
    /// Hostname, where it is known.
    pub host_name: Option<String>,
    /// Operating system.
    pub os: String,
    /// Architecture.
    pub arch: String,
    /// Version.
    pub version: String,
    /// Commit.
    pub commit: String,
    /// Branch.
    pub branch: String,
    /// Time of the build.
    pub build_time: String,
    /// Directories that the configuration may be kept in.
    pub dirs: ConfigDirs,
    /// Key to register with.
    pub cb_key: Option<String>,
    /// Key to register with where the first is missing.
    pub logger_key: Option<String>,
}

/// The text, or another where it is missing.
pub open spec fn text_or(t: Option<String>, other: Seq<char>) -> Seq<char> {
    match t {
        Some(t) => t@,
        None => other,
    }
}

/// What is told of this host.
pub open spec fn metadata_of(e: RemoteEnv) -> ClientMetadataView {
    ClientMetadataView {
        os: e.os@,
        arch: e.arch@,
        hostname: text_or(e.host_name, "unknown"@),
        version: e.version@,
        commit: e.commit@,
        branch: e.branch@,
        build_time: e.build_time@,
    }
}

/// The name of this host at the server.
pub open spec fn client_name_of(e: RemoteEnv) -> Seq<char> {
    "lan-mouse-"@ + e.os@ + "-"@ + text_or(e.host_name, "unknown"@)
}

/// What is done to start the shipping.
#[derive(Debug)]
pub enum InitAction {
    /// Read the registration out of a file.
    ReadCache(String),
    /// Tell the server what has changed of this host.
    Patch {
        /// Where.
        url: String,
        /// What authorizes this host.
        token: String,
        /// What is told.
        metadata: ClientMetadata,
    },
    /// Register this host.
    Register {
        /// Where.
        url: String,
        /// Key to register with.
        api_key: String,
        /// Name of this host.
        name: String,
        /// What is told of it.
        metadata: ClientMetadata,
    },
    /// Keep the registration in a file; a failure counts where it is required.
    Persist {
        /// The file.
        path: String,
        /// The registration.
        cache: TokenCache,
        /// Whether a failure counts.
        required: bool,
    },
    /// Print a line to the error output.
    PrintError(String),
    /// Append a line to the state file.
    WriteStatus(String),
    /// Ship entries.
    Ship {
        /// Where.
        endpoint: String,
        /// What authorizes this host.
        token: String,
    },
    /// Go on without shipping.
    Disable,
    /// Go on without shipping, for a failure.
    Fail(String),
}

/// Contents of an [`InitAction`].
#[verifier::ext_equal]
pub enum InitActionView {
    /// See [`InitAction::ReadCache`].
    ReadCache(Seq<char>),
    /// See [`InitAction::Patch`].
    Patch {
        /// See [`InitAction::Patch`].
        url: Seq<char>,
        /// See [`InitAction::Patch`].
        token: Seq<char>,
        /// See [`InitAction::Patch`].
        metadata: ClientMetadataView,
    },
    /// See [`InitAction::Register`].
    Register {
        /// See [`InitAction::Register`].
        url: Seq<char>,
        /// See [`InitAction::Register`].
        api_key: Seq<char>,
        /// See [`InitAction::Register`].
        name: Seq<char>,
        /// See [`InitAction::Register`].
        metadata: ClientMetadataView,
    },
    /// See [`InitAction::Persist`].
    Persist {
        /// See [`InitAction::Persist`].
        path: Seq<char>,
        /// See [`InitAction::Persist`].
        cache: TokenCacheView,
        /// See [`InitAction::Persist`].
        required: bool,
    },
    /// See [`InitAction::PrintError`].
    PrintError(Seq<char>),
    /// See [`InitAction::WriteStatus`].
    WriteStatus(Seq<char>),
    /// See [`InitAction::Ship`].
    Ship {
        /// See [`InitAction::Ship`].
        endpoint: Seq<char>,
        /// See [`InitAction::Ship`].
        token: Seq<char>,
    },
    /// See [`InitAction::Disable`].
    Disable,
    /// See [`InitAction::Fail`].
    Fail(Seq<char>),
}

impl View for InitAction {
    type V = InitActionView;

    open spec fn view(&self) -> InitActionView {
        match self {
            InitAction::ReadCache(p) => InitActionView::ReadCache(p@),
            InitAction::Patch { url, token, metadata } => InitActionView::Patch {
                url: url@,
                token: token@,
                metadata: metadata@,
            },
            InitAction::Register { url, api_key, name, metadata } => InitActionView::Register {
                url: url@,
                api_key: api_key@,
                name: name@,
                metadata: metadata@,
            },
            InitAction::Persist { path, cache, required } => InitActionView::Persist {
                path: path@,
                cache: cache@,
                required: *required,
            },
            InitAction::PrintError(m) => InitActionView::PrintError(m@),
            InitAction::WriteStatus(m) => InitActionView::WriteStatus(m@),
            InitAction::Ship { endpoint, token } => InitActionView::Ship {
                endpoint: endpoint@,
                token: token@,
            },
            InitAction::Disable => InitActionView::Disable,
            InitAction::Fail(e) => InitActionView::Fail(e@),
        }
    }
}

/// The contents of a list of actions.
pub open spec fn init_views(v: Seq<InitAction>) -> Seq<InitActionView> {
    Seq::new(v.len(), |i: int| v[i]@)
}

/// What came of an action.
#[derive(Debug)]
pub enum InitReply {
    /// The registration that was read, where there was one.
    Cache(Option<TokenCache>),
    /// It was done.
    Done,
    /// This host was registered.
    Registered {
        /// Number of the host at the server.
        client_id: String,
        /// What authorizes this host.
        token: String,
    },
    /// It failed; holds the reason.
    Refused(String),
}

/// Contents of an [`InitReply`].
#[verifier::ext_equal]
pub enum InitReplyView {
    /// See [`InitReply::Cache`].
    Cache(Option<TokenCacheView>),
    /// See [`InitReply::Done`].
    Done,
    /// See [`InitReply::Registered`].
    Registered {
        /// See [`InitReply::Registered`].
        client_id: Seq<char>,
        /// See [`InitReply::Registered`].
        token: Seq<char>,
    },
    /// See [`InitReply::Refused`].
    Refused(Seq<char>),
}

impl View for InitReply {
    type V = InitReplyView;

    open spec fn view(&self) -> InitReplyView {
        match self {
            InitReply::Cache(c) => InitReplyView::Cache(opt_cache_view(*c)),
            InitReply::Done => InitReplyView::Done,
            InitReply::Registered { client_id, token } => InitReplyView::Registered {
                client_id: client_id@,
                token: token@,
            },
            InitReply::Refused(e) => InitReplyView::Refused(e@),
        }
    }
}

/// Where the start of the shipping stands.
#[derive(Debug)]
pub enum InitStage {
    /// The registration is being read.
    Loading,
    /// The server is being told what has changed.
    Patching(TokenCache),
    /// This host is being registered.
    Registering,
    /// The registration with a token is being kept.
    Persisting(String),
    /// It is over.
    Finished,
}

/// Contents of an [`InitStage`].
#[verifier::ext_equal]
pub enum InitStageView {
    /// See [`InitStage::Loading`].
    Loading,
    /// See [`InitStage::Patching`].
    Patching(TokenCacheView),
    /// See [`InitStage::Registering`].
    Registering,
    /// See [`InitStage::Persisting`].
    Persisting(Seq<char>),
    /// See [`InitStage::Finished`].
    Finished,
}

impl View for InitStage {
    type V = InitStageView;

    open spec fn view(&self) -> InitStageView {
        match self {
            InitStage::Loading => InitStageView::Loading,
            InitStage::Patching(c) => InitStageView::Patching(c@),
            InitStage::Registering => InitStageView::Registering,
            InitStage::Persisting(t) => InitStageView::Persisting(t@),
            InitStage::Finished => InitStageView::Finished,
        }
    }
}

/// State of the start of the shipping.
#[verifier::ext_equal]
pub struct RemoteInitView {
    /// Log server.
    pub host: Seq<char>,
    /// Name of this host.
    pub client_name: Seq<char>,
    /// What is told of this host.
    pub metadata: ClientMetadataView,
    /// File of the registration.
    pub token_path: Seq<char>,
    /// Key to register with.
    pub api_key: Option<Seq<char>>,
    /// Where it stands.
    pub stage: InitStageView,
}

/// The state before the registration was read.
pub open spec fn loading(e: RemoteEnv, dir: Seq<char>) -> RemoteInitView {
    RemoteInitView {
        host: text_or(e.host, DEFAULT_HOST@),
        client_name: client_name_of(e),
        metadata: metadata_of(e),
        token_path: token_path_in(dir),
        api_key: api_key(text::opt_view(e.cb_key), text::opt_view(e.logger_key)),
        stage: InitStageView::Loading,
    }
}

/// Shipping starts, by a token from a source.
pub open spec fn shipping(
    s: RemoteInitView,
    token: Seq<char>,
    source: Seq<char>,
    note: Seq<char>,
) -> Seq<InitActionView> {
    let line = "shipping to "@ + s.host + " as "@ + s.client_name + " (source: "@ + source
        + ", "@ + note + ", cache: "@ + s.token_path + ")"@;
    seq![
        InitActionView::PrintError("remote_log: "@ + line),
        InitActionView::WriteStatus(line),
        InitActionView::Ship { endpoint: s.host + "/v1/logs/bulk"@, token },
    ]
}

/// What the user is told where there is neither a registration nor a key.
pub open spec fn not_registered_message(token_path: Seq<char>) -> Seq<char> {
    "no cached token at "@ + token_path
        + " and no LOGGER_APIKEY in env — run the register helper (Windows: register-logger.cmd; Linux/macOS: source apikey.env then start lan-mouse once) to opt in"@
}

/// What the user is told where there is no key, be there a registration or not.
pub open spec fn no_key_message(token_path: Seq<char>, registered: bool) -> Seq<char> {
    if registered {
        "no LOGGER_APIKEY in env"@
    } else {
        not_registered_message(token_path)
    }
}

/// The stage that follows.
pub open spec fn at_stage(s: RemoteInitView, stage: InitStageView) -> RemoteInitView {
    RemoteInitView { stage, ..s }
}

/// The registration was read. Nothing is shipped without a key; it is sent only where there is no
/// registration.
pub open spec fn cache_read(s: RemoteInitView, cached: Option<TokenCacheView>) -> (
    RemoteInitView,
    Seq<InitActionView>,
) {
    let usable = usable_entry(cached, s.client_name);
    match s.api_key {
        None => (
            at_stage(s, InitStageView::Finished),
            seq![
                InitActionView::WriteStatus(
                    "disabled ("@ + no_key_message(s.token_path, usable is Some) + ")"@,
                ),
                InitActionView::Disable,
            ],
        ),
        Some(api_key) => match usable {
            Some(c) => if c.metadata == Some(s.metadata) {
                (
                    at_stage(s, InitStageView::Finished),
                    shipping(s, c.token, "cached token"@, "metadata unchanged"@),
                )
            } else {
                (
                    at_stage(s, InitStageView::Patching(c)),
                    seq![
                        InitActionView::Patch {
                            url: s.host + "/v1/client"@,
                            token: c.token,
                            metadata: s.metadata,
                        },
                    ],
                )
            },
            None => (
                at_stage(s, InitStageView::Registering),
                seq![
                    InitActionView::Register {
                        url: s.host + "/v1/register"@,
                        api_key,
                        name: s.client_name,
                        metadata: s.metadata,
                    },
                ],
            ),
        },
    }
}

/// The server was told what has changed of this host, unless that failed; either way shipping
/// starts.
pub open spec fn patched(s: RemoteInitView, c: TokenCacheView, failure: Option<Seq<char>>) -> Seq<
    InitActionView,
> {
    match failure {
        None => seq![
            InitActionView::Persist {
                path: s.token_path,
                cache: TokenCacheView { metadata: Some(s.metadata), ..c },
                required: false,
            },
        ] + shipping(s, c.token, "cached token"@, "metadata PATCH'd (new version)"@),
        Some(e) => seq![
            InitActionView::PrintError("remote_log: metadata PATCH failed (non-fatal): "@ + e),
        ] + shipping(s, c.token, "cached token"@, "metadata PATCH failed"@),
    }
}

/// Something comes of an action; what was not asked for changes nothing.
pub open spec fn init_step(s: RemoteInitView, r: InitReplyView) -> (
    RemoteInitView,
    Seq<InitActionView>,
) {
    match (s.stage, r) {
        (InitStageView::Loading, InitReplyView::Cache(c)) => cache_read(s, c),
        (InitStageView::Patching(c), InitReplyView::Done) => (
            at_stage(s, InitStageView::Finished),
            patched(s, c, None),
        ),
        (InitStageView::Patching(c), InitReplyView::Refused(e)) => (
            at_stage(s, InitStageView::Finished),
            patched(s, c, Some(e)),
        ),
        (InitStageView::Registering, InitReplyView::Registered { client_id, token }) => (
            at_stage(s, InitStageView::Persisting(token)),
            seq![
                InitActionView::Persist {
                    path: s.token_path,
                    cache: TokenCacheView {
                        client_id,
                        token,
                        name: s.client_name,
                        metadata: Some(s.metadata),
                    },
                    required: true,
                },
            ],
        ),
        (InitStageView::Registering, InitReplyView::Refused(e)) => (
            at_stage(s, InitStageView::Finished),
            seq![InitActionView::Fail(e)],
        ),
        (InitStageView::Persisting(token), InitReplyView::Done) => (
            at_stage(s, InitStageView::Finished),
            shipping(s, token, "freshly registered"@, "metadata set at register"@),
        ),
        (InitStageView::Persisting(token), InitReplyView::Refused(e)) => (
            at_stage(s, InitStageView::Finished),
            seq![InitActionView::Fail(e)],
        ),
        _ => (s, Seq::empty()),
    }
}

/// The start of the shipping.
#[derive(Debug)]
pub struct RemoteInit {
    host: String,
    client_name: String,
    metadata: ClientMetadata,
    token_path: String,
    api_key: Option<String>,
    stage: InitStage,
}

impl View for RemoteInit {
    type V = RemoteInitView;

    closed spec fn view(&self) -> RemoteInitView {
        RemoteInitView {
            host: self.host@,
            client_name: self.client_name@,
            metadata: self.metadata@,
            token_path: self.token_path@,
            api_key: text::opt_view(self.api_key),
            stage: self.stage@,
        }
    }
}

fn one(a: InitAction) -> (r: Vec<InitAction>)
    ensures
        init_views(r@) == seq![a@],
{
    let mut r: Vec<InitAction> = Vec::new();
    r.push(a);
    assert(init_views(r@) =~= seq![a@]);
    r
}

fn push(out: &mut Vec<InitAction>, a: InitAction)
    ensures
        init_views(final(out)@) == init_views(old(out)@).push(a@),
{
    out.push(a);
    assert(init_views(out@) =~= init_views(old(out)@).push(a@));
}

fn string_or(t: Option<String>, other: &str) -> (r: String)
    ensures
        r@ == text_or(t, other@),
{
    match t {
        Some(t) => t,
        None => other.to_owned(),
    }
}

/// Starts the shipping. Says what is done first; where more is to be done, also what the rest
/// depends on.
pub fn try_init_remote(env: RemoteEnv) -> (r: (Option<RemoteInit>, Vec<InitAction>))
    ensures
        env.disabled ==> r.0 is None && init_views(r.1@) == seq![
            InitActionView::WriteStatus("disabled by LAN_MOUSE_REMOTE_LOG_DISABLE"@),
            InitActionView::Disable,
        ],
        !env.disabled ==> match config_dir_of(env.dirs) {
            Some(dir) => {
                &&& r.0 is Some
                &&& r.0->0@ == loading(env, dir)
                &&& init_views(r.1@) == seq![InitActionView::ReadCache(token_path_in(dir))]
            },
            None => r.0 is None && init_views(r.1@) == seq![
                if api_key(text::opt_view(env.cb_key), text::opt_view(env.logger_key)) is Some {
                    InitActionView::Fail(no_dir_message())
                } else {
                    InitActionView::Disable
                },
            ],
        },
{
    if env.disabled {
        let mut out: Vec<InitAction> = one(
            InitAction::WriteStatus("disabled by LAN_MOUSE_REMOTE_LOG_DISABLE".to_owned()),
        );
        push(&mut out, InitAction::Disable);
        proof {
            assert(init_views(out@) =~= seq![
                InitActionView::WriteStatus("disabled by LAN_MOUSE_REMOTE_LOG_DISABLE"@),
                InitActionView::Disable,
            ]);
        }
        return (None, out);
    }
    let api_key: Option<String> = read_api_key(env.cb_key, env.logger_key);
    let token_path: String = match token_path(&env.dirs) {
        Ok(p) => p,
        Err(e) => {
            let a: InitAction = if api_key.is_some() {
                InitAction::Fail(e)
            } else {
                InitAction::Disable
            };
            return (None, one(a));
        },
    };
    let host: String = string_or(env.host, DEFAULT_HOST);
    let hostname: String = string_or(env.host_name, "unknown");
    let head: String = text::concat3("lan-mouse-", env.os.as_str(), "-");
    let client_name: String = text::concat2(head.as_str(), hostname.as_str());
    let metadata: ClientMetadata = ClientMetadata {
        os: env.os,
        arch: env.arch,
        hostname,
        version: env.version,
        commit: env.commit,
        branch: env.branch,
        build_time: env.build_time,
    };
    let path: String = token_path.clone();
    let init: RemoteInit = RemoteInit {
        host,
        client_name,
        metadata,
        token_path,
        api_key,
        stage: InitStage::Loading,
    };
    assert(init@ =~= loading(env, config_dir_of(env.dirs)->0));
    (Some(init), one(InitAction::ReadCache(path)))
}

impl RemoteInit {
    fn ship(&self, out: &mut Vec<InitAction>, token: String, source: &str, note: &str)
        ensures
            init_views(final(out)@) == init_views(old(out)@) + shipping(
                self@,
                token@,
                source@,
                note@,
            ),
    {
        let a: String = text::concat3("shipping to ", self.host.as_str(), " as ");
        let b: String = text::concat3(a.as_str(), self.client_name.as_str(), " (source: ");
        let c: String = text::concat3(b.as_str(), source, ", ");
        let d: String = text::concat3(c.as_str(), note, ", cache: ");
        let line: String = text::concat3(d.as_str(), self.token_path.as_str(), ")");
        push(out, InitAction::PrintError(text::concat2("remote_log: ", line.as_str())));
        push(out, InitAction::WriteStatus(line));
        push(
            out,
            InitAction::Ship {
                endpoint: text::concat2(self.host.as_str(), "/v1/logs/bulk"),
                token,
            },
        );
        proof {
            assert(init_views(out@) =~= init_views(old(out)@) + shipping(
                self@,
                token@,
                source@,
                note@,
            ));
        }
    }

    fn on_cache(&mut self, cached: Option<TokenCache>) -> (r: Vec<InitAction>)
        ensures
            (final(self)@, init_views(r@)) == cache_read(old(self)@, opt_cache_view(cached)),
    {
        let mut out: Vec<InitAction> = Vec::new();
        assert(init_views(out@) =~= Seq::empty());
        let usable: Option<TokenCache> = load_cached_entry(cached, self.client_name.as_str());
        match &self.api_key {
            None => {
                let why: String = match usable {
                    Some(_) => "no LOGGER_APIKEY in env".to_owned(),
                    None => text::concat3(
                        "no cached token at ",
                        self.token_path.as_str(),
                        " and no LOGGER_APIKEY in env — run the register helper (Windows: register-logger.cmd; Linux/macOS: source apikey.env then start lan-mouse once) to opt in",
                    ),
                };
                let status: String = text::concat3("disabled (", why.as_str(), ")");
                push(&mut out, InitAction::WriteStatus(status));
                push(&mut out, InitAction::Disable);
                self.stage = InitStage::Finished;
            },
            Some(k) => match usable {
                Some(c) => {
                    let unchanged: bool = match &c.metadata {
                        Some(m) => m.same(&self.metadata),
                        None => false,
                    };
                    if unchanged {
                        self.stage = InitStage::Finished;
                        self.ship(&mut out, c.token, "cached token", "metadata unchanged");
                    } else {
                        push(
                            &mut out,
                            InitAction::Patch {
                                url: text::concat2(self.host.as_str(), "/v1/client"),
                                token: c.token.clone(),
                                metadata: self.metadata.clone(),
                            },
                        );
                        self.stage = InitStage::Patching(c);
                    }
                },
                None => {
                    push(
                        &mut out,
                        InitAction::Register {
                            url: text::concat2(self.host.as_str(), "/v1/register"),
                            api_key: k.clone(),
                            name: self.client_name.clone(),
                            metadata: self.metadata.clone(),
                        },
                    );
                    self.stage = InitStage::Registering;
                },
            },
        }
        proof {
            let t = cache_read(old(self)@, opt_cache_view(cached));
            assert(init_views(out@) =~= t.1);
            assert(self@ =~= t.0);
        }
        out
    }

    fn on_patched(&self, c: TokenCache, failure: Option<String>) -> (r: Vec<InitAction>)
        ensures
            init_views(r@) == patched(self@, c@, text::opt_view(failure)),
    {
        let mut out: Vec<InitAction> = Vec::new();
        assert(init_views(out@) =~= Seq::empty());
        match failure {
            None => {
                let token: String = c.token.clone();
                push(
                    &mut out,
                    InitAction::Persist {
                        path: self.token_path.clone(),
                        cache: TokenCache {
                            client_id: c.client_id,
                            token: c.token,
                            name: c.name,
                            metadata: Some(self.metadata.clone()),
                        },
                        required: false,
                    },
                );
                self.ship(&mut out, token, "cached token", "metadata PATCH'd (new version)");
            },
            Some(e) => {
                let line: String = text::concat2(
                    "remote_log: metadata PATCH failed (non-fatal): ",
                    e.as_str(),
                );
                push(&mut out, InitAction::PrintError(line));
                self.ship(&mut out, c.token, "cached token", "metadata PATCH failed");
            },
        }
        assert(init_views(out@) =~= patched(self@, c@, text::opt_view(failure)));
        out
    }

    /// Takes what came of an action; says what is done next, and what the rest depends on.
    pub fn step(self, reply: InitReply) -> (r: (RemoteInit, Vec<InitAction>))
        ensures
            (r.0@, init_views(r.1@)) == init_step(self@, reply@),
    {
        let ghost before = self@;
        let mut out: Vec<InitAction> = Vec::new();
        assert(init_views(out@) =~= Seq::empty());
        let RemoteInit { host, client_name, metadata, token_path, api_key, stage } = self;
        let mut next: RemoteInit = RemoteInit {
            host,
            client_name,
            metadata,
            token_path,
            api_key,
            stage: InitStage::Finished,
        };
        match stage {
            InitStage::Loading => match reply {
                InitReply::Cache(c) => {
                    next.stage = InitStage::Loading;
                    assert(next@ =~= before);
                    out = next.on_cache(c);
                },
                _ => {
                    next.stage = InitStage::Loading;
                },
            },
            InitStage::Patching(c) => match reply {
                InitReply::Done => {
                    out = next.on_patched(c, None);
                },
                InitReply::Refused(e) => {
                    out = next.on_patched(c, Some(e));
                },
                _ => {
                    next.stage = InitStage::Patching(c);
                },
            },
            InitStage::Registering => match reply {
                InitReply::Registered { client_id, token } => {
                    next.stage = InitStage::Persisting(token.clone());
                    push(
                        &mut out,
                        InitAction::Persist {
                            path: next.token_path.clone(),
                            cache: TokenCache {
                                client_id,
                                token,
                                name: next.client_name.clone(),
                                metadata: Some(next.metadata.clone()),
                            },
                            required: true,
                        },
                    );
                },
                InitReply::Refused(e) => {
                    push(&mut out, InitAction::Fail(e));
                },
                _ => {
                    next.stage = InitStage::Registering;
                },
            },
            InitStage::Persisting(token) => match reply {
                InitReply::Done => {
                    next.ship(
                        &mut out,
                        token,
                        "freshly registered",
                        "metadata set at register",
                    );
                },
                InitReply::Refused(e) => {
                    push(&mut out, InitAction::Fail(e));
                },
                _ => {
                    next.stage = InitStage::Persisting(token);
                },
            },
            InitStage::Finished => {},
        }
        proof {
            let t = init_step(before, reply@);
            assert(init_views(out@) =~= t.1);
            assert(next@ =~= t.0);
        }
        (next, out)
    }
}

// ----- shipping -------------------------------------------------------------

/// An entry of the log.
#[derive(Debug)]
pub struct LogEntry {
    /// Severity.
    pub level: Level,
    /// Text.
    pub message: String,
    /// Where it is meant to go.
    pub target: String,
    /// Module that wrote it.
    pub module: Option<String>,
}

/// Contents of a [`LogEntry`].
#[verifier::ext_equal]
pub struct LogEntryView {
    /// See [`LogEntry::level`].
    pub level: Level,
    /// See [`LogEntry::message`].
    pub message: Seq<char>,
    /// See [`LogEntry::target`].
    pub target: Seq<char>,
    /// See [`LogEntry::module`].
    pub module: Option<Seq<char>>,
}

impl View for LogEntry {
    type V = LogEntryView;

    open spec fn view(&self) -> LogEntryView {
        LogEntryView {
            level: self.level,
            message: self.message@,
            target: self.target@,
            module: text::opt_view(self.module),
        }
    }
}

/// The contents of a list of entries.
pub open spec fn entry_views(v: Seq<LogEntry>) -> Seq<LogEntryView> {
    Seq::new(v.len(), |i: int| v[i]@)
}

/// What the shipper is told.
#[derive(Debug)]
pub enum ShipperInput {
    /// An entry came while it was waited for.
    Received(LogEntry),
    /// No entry came in time.
    Timeout,
    /// There will be no more entries.
    Disconnected,
    /// A further entry was there.
    Drained(LogEntry),
    /// No further entry was there.
    Empty,
    /// A batch was sent, or lost.
    Flushed,
}

/// Contents of a [`ShipperInput`].
#[verifier::ext_equal]
pub enum ShipperInputView {
    /// See [`ShipperInput::Received`].
    Received(LogEntryView),
    /// See [`ShipperInput::Timeout`].
    Timeout,
    /// See [`ShipperInput::Disconnected`].
    Disconnected,
    /// See [`ShipperInput::Drained`].
    Drained(LogEntryView),
    /// See [`ShipperInput::Empty`].
    Empty,
    /// See [`ShipperInput::Flushed`].
    Flushed,
}

impl View for ShipperInput {
    type V = ShipperInputView;

    open spec fn view(&self) -> ShipperInputView {
        match self {
            ShipperInput::Received(e) => ShipperInputView::Received(e@),
            ShipperInput::Timeout => ShipperInputView::Timeout,
            ShipperInput::Disconnected => ShipperInputView::Disconnected,
            ShipperInput::Drained(e) => ShipperInputView::Drained(e@),
            ShipperInput::Empty => ShipperInputView::Empty,
            ShipperInput::Flushed => ShipperInputView::Flushed,
        }
    }
}

/// What the shipper does next.
#[derive(Debug)]
pub enum ShipperAction {
    /// Wait for an entry, in milliseconds.
    Receive(u64),
    /// See whether a further entry is there.
    TryReceive,
    /// Send a batch.
    Send(Vec<LogEntry>),
    /// Send what is left and return.
    SendAndReturn(Vec<LogEntry>),
    /// Return.
    Return,
}

/// Contents of a [`ShipperAction`].
#[verifier::ext_equal]
pub enum ShipperActionView {
    /// See [`ShipperAction::Receive`].
    Receive(u64),
    /// See [`ShipperAction::TryReceive`].
    TryReceive,
    /// See [`ShipperAction::Send`].
    Send(Seq<LogEntryView>),
    /// See [`ShipperAction::SendAndReturn`].
    SendAndReturn(Seq<LogEntryView>),
    /// See [`ShipperAction::Return`].
    Return,
}

impl View for ShipperAction {
    type V = ShipperActionView;

    open spec fn view(&self) -> ShipperActionView {
        match self {
            ShipperAction::Receive(t) => ShipperActionView::Receive(*t),
            ShipperAction::TryReceive => ShipperActionView::TryReceive,
            ShipperAction::Send(v) => ShipperActionView::Send(entry_views(v@)),
            ShipperAction::SendAndReturn(v) => ShipperActionView::SendAndReturn(
                entry_views(v@),
            ),
            ShipperAction::Return => ShipperActionView::Return,
        }
    }
}

/// State of the shipper.
#[verifier::ext_equal]
pub struct ShipperView {
    /// Entries that have been collected.
    pub buf: Seq<LogEntryView>,
    /// When a batch was last sent, in milliseconds.
    pub last_flush: u64,
}

/// How long has passed.
pub open spec fn elapsed(now: u64, since: u64) -> int {
    if now >= since {
        now - since
    } else {
        0
    }
}

/// How long an entry is waited for.
pub open spec fn wait_time(s: ShipperView, now: u64) -> u64 {
    if elapsed(now, s.last_flush) >= BATCH_INTERVAL {
        0
    } else {
        (BATCH_INTERVAL - elapsed(now, s.last_flush)) as u64
    }
}

/// What has been collected is sent where it is due.
pub open spec fn due_sent(s: ShipperView, now: u64) -> (ShipperView, ShipperActionView) {
    if s.buf.len() >= MAX_BATCH || elapsed(now, s.last_flush) >= BATCH_INTERVAL {
        if s.buf.len() == 0 {
            let t = ShipperView { last_flush: now, ..s };
            (t, ShipperActionView::Receive(wait_time(t, now)))
        } else {
            (ShipperView { buf: Seq::empty(), ..s }, ShipperActionView::Send(s.buf))
        }
    } else {
        (s, ShipperActionView::Receive(wait_time(s, now)))
    }
}

/// Further entries are collected until a batch is full.
pub open spec fn collecting(s: ShipperView, now: u64) -> (ShipperView, ShipperActionView) {
    if s.buf.len() < MAX_BATCH {
        (s, ShipperActionView::TryReceive)
    } else {
        due_sent(s, now)
    }
}

/// The shipper is told something, at a time in milliseconds.
pub open spec fn shipper_step(s: ShipperView, i: ShipperInputView, now: u64) -> (
    ShipperView,
    ShipperActionView,
) {
    match i {
        ShipperInputView::Received(e) => collecting(
            ShipperView { buf: s.buf.push(e), ..s },
            now,
        ),
        ShipperInputView::Timeout => collecting(s, now),
        ShipperInputView::Drained(e) => collecting(ShipperView { buf: s.buf.push(e), ..s }, now),
        ShipperInputView::Empty => due_sent(s, now),
        ShipperInputView::Disconnected => if s.buf.len() == 0 {
            (s, ShipperActionView::Return)
        } else {
            (
                ShipperView { buf: Seq::empty(), ..s },
                ShipperActionView::SendAndReturn(s.buf),
            )
        },
        ShipperInputView::Flushed => {
            let t = ShipperView { last_flush: now, ..s };
            (t, ShipperActionView::Receive(wait_time(t, now)))
        },
    }
}

/// Collects entries and sends them in batches.
#[derive(Debug)]
pub struct Shipper {
    buf: Vec<LogEntry>,
    last_flush: u64,
}

impl View for Shipper {
    type V = ShipperView;

    closed spec fn view(&self) -> ShipperView {
        ShipperView { buf: entry_views(self.buf@), last_flush: self.last_flush }
    }
}

impl Shipper {
    /// A shipper without entries, at a time in milliseconds, with what it does first.
    pub fn new(now: u64) -> (r: (Shipper, ShipperAction))
        ensures
            r.0@ == (ShipperView { buf: Seq::empty(), last_flush: now }),
            r.1@ == ShipperActionView::Receive(BATCH_INTERVAL),
    {
        let s: Shipper = Shipper { buf: Vec::new(), last_flush: now };
        assert(s@.buf =~= Seq::empty());
        (s, ShipperAction::Receive(BATCH_INTERVAL))
    }

    fn take(&mut self) -> (r: Vec<LogEntry>)
        ensures
            entry_views(r@) == old(self)@.buf,
            final(self)@ == (ShipperView { buf: Seq::empty(), ..old(self)@ }),
    {
        let mut r: Vec<LogEntry> = Vec::new();
        r.append(&mut self.buf);
        assert(entry_views(r@) =~= old(self)@.buf);
        assert(self@ =~= ShipperView { buf: Seq::empty(), ..old(self)@ });
        r
    }

    fn receive(&self, now: u64) -> (r: ShipperAction)
        ensures
            r@ == ShipperActionView::Receive(wait_time(self@, now)),
    {
        let passed: u64 = now.saturating_sub(self.last_flush);
        ShipperAction::Receive(BATCH_INTERVAL.saturating_sub(passed))
    }

    fn send_due(&mut self, now: u64) -> (r: ShipperAction)
        ensures
            (final(self)@, r@) == due_sent(old(self)@, now),
    {
        let passed: u64 = now.saturating_sub(self.last_flush);
        if self.buf.len() >= MAX_BATCH || passed >= BATCH_INTERVAL {
            if self.buf.len() == 0 {
                self.last_flush = now;
                assert(self@ =~= ShipperView { last_flush: now, ..old(self)@ });
                self.receive(now)
            } else {
                let batch: Vec<LogEntry> = self.take();
                ShipperAction::Send(batch)
            }
        } else {
            self.receive(now)
        }
    }

    fn collect(&mut self, now: u64) -> (r: ShipperAction)
        ensures
            (final(self)@, r@) == collecting(old(self)@, now),
    {
        if self.buf.len() < MAX_BATCH {
            ShipperAction::TryReceive
        } else {
            self.send_due(now)
        }
    }

    fn add_entry(&mut self, e: LogEntry)
        ensures
            final(self)@ == (ShipperView { buf: old(self)@.buf.push(e@), ..old(self)@ }),
    {
        self.buf.push(e);
        assert(self@ =~= ShipperView { buf: old(self)@.buf.push(e@), ..old(self)@ });
    }

    /// Takes what the shipper is told, at a time in milliseconds; says what it does next.
    pub fn step(&mut self, input: ShipperInput, now: u64) -> (r: ShipperAction)
        ensures
            (final(self)@, r@) == shipper_step(old(self)@, input@, now),
    {
        match input {
            ShipperInput::Received(e) => {
                self.add_entry(e);
                self.collect(now)
            },
            ShipperInput::Timeout => self.collect(now),
            ShipperInput::Drained(e) => {
                self.add_entry(e);
                self.collect(now)
            },
            ShipperInput::Empty => self.send_due(now),
            ShipperInput::Disconnected => {
                if self.buf.len() == 0 {
                    ShipperAction::Return
                } else {
                    let batch: Vec<LogEntry> = self.take();
                    ShipperAction::SendAndReturn(batch)
                }
            },
            ShipperInput::Flushed => {
                self.last_flush = now;
                assert(self@ =~= ShipperView { last_flush: now, ..old(self)@ });
                self.receive(now)
            },
        }
    }
}

/// Whether the user was told of a failed upload.
#[derive(Debug)]
pub struct UploadWarning {
    warned: bool,
}

impl View for UploadWarning {
    type V = bool;

    closed spec fn view(&self) -> bool {
        self.warned
    }
}

impl UploadWarning {
    /// The user was told nothing.
    pub fn new() -> (r: UploadWarning)
        ensures
            !r@,
    {
        UploadWarning { warned: false }
    }

    /// An upload failed: the user is told the first time, and never again.
    pub fn on_failure(&mut self, e: &str) -> (r: Option<String>)
        ensures
            final(self)@,
            old(self)@ ==> r is None,
            !old(self)@ ==> text::opt_view(r) == Some(
                "remote_log: bulk upload failed (further errors silenced): "@ + e@,
            ),
    {
        if self.warned {
            return None;
        }
        self.warned = true;
        Some(text::concat2("remote_log: bulk upload failed (further errors silenced): ", e))
    }
}

// ----- laws -----------------------------------------------------------------

/// Without a key nothing is sent, whatever is kept of an earlier registration.
pub proof fn law_off_without_key(s: RemoteInitView, cached: Option<TokenCacheView>)
    requires
        s.stage is Loading,
        s.api_key is None,
    ensures
        ({
            let t = init_step(s, InitReplyView::Cache(cached));
            &&& t.0.stage is Finished
            &&& t.1.len() == 2
            &&& t.1[0] is WriteStatus
            &&& t.1[1] is Disable
        }),
{
}

/// A key is sent only where no registration counts, and only to register.
pub proof fn law_key_only_registers(s: RemoteInitView, r: InitReplyView, i: int)
    requires
        0 <= i < init_step(s, r).1.len(),
        init_step(s, r).1[i] is Register,
    ensures
        s.stage is Loading,
        r is Cache && usable_entry(r->Cache_0, s.client_name) is None,
        s.api_key == Some(init_step(s, r).1[i]->Register_api_key),
{
}

/// Nothing is told to the server where nothing has changed of this host.
pub proof fn law_unchanged_not_patched(s: RemoteInitView, c: TokenCacheView)
    requires
        s.stage is Loading,
        s.api_key is Some,
        c.name == s.client_name,
        c.token.len() > 0,
        c.metadata == Some(s.metadata),
    ensures
        init_step(s, InitReplyView::Cache(Some(c))) == (
            at_stage(s, InitStageView::Finished),
            shipping(s, c.token, "cached token"@, "metadata unchanged"@),
        ),
{
}

/// A registration that was kept is used again: after registering, the next start ships by the
/// same token without registering.
pub proof fn law_registration_reused(
    s: RemoteInitView,
    client_id: Seq<char>,
    token: Seq<char>,
)
    requires
        s.stage is Registering,
        s.api_key is Some,
        token.len() > 0,
    ensures
        ({
            let kept = init_step(s, InitReplyView::Registered { client_id, token }).1[0];
            let again = at_stage(s, InitStageView::Loading);
            init_step(again, InitReplyView::Cache(Some(kept->Persist_cache))).1 == shipping(
                again,
                token,
                "cached token"@,
                "metadata unchanged"@,
            )
        }),
{
}

/// What a shipper sends by an action.
pub open spec fn sent_by(a: ShipperActionView) -> Seq<LogEntryView> {
    match a {
        ShipperActionView::Send(v) => v,
        ShipperActionView::SendAndReturn(v) => v,
        _ => Seq::empty(),
    }
}

/// The entry that a shipper is told of.
pub open spec fn entry_in(i: ShipperInputView) -> Seq<LogEntryView> {
    match i {
        ShipperInputView::Received(e) => seq![e],
        ShipperInputView::Drained(e) => seq![e],
        _ => Seq::empty(),
    }
}

/// No entry that has been taken is lost, sent twice or moved before another: what is sent and
/// what is kept is what was kept and what came.
pub proof fn law_entries_in_order(s: ShipperView, i: ShipperInputView, now: u64)
    ensures
        sent_by(shipper_step(s, i, now).1) + shipper_step(s, i, now).0.buf =~= s.buf + entry_in(i),
{
}

/// No batch is larger than allowed, and there is always room for another entry.
pub proof fn law_batch_bounded(s: ShipperView, i: ShipperInputView, now: u64)
    requires
        s.buf.len() < MAX_BATCH,
    ensures
        sent_by(shipper_step(s, i, now).1).len() <= MAX_BATCH,
        shipper_step(s, i, now).0.buf.len() < MAX_BATCH,
{
}

/// No entry waits longer than the interval: once it has passed, the next look at an empty queue
/// sends all that was collected.
pub proof fn law_interval_kept(s: ShipperView, now: u64)
    requires
        s.buf.len() > 0,
        elapsed(now, s.last_flush) >= BATCH_INTERVAL,
    ensures
        shipper_step(s, ShipperInputView::Empty, now).1 == ShipperActionView::Send(s.buf),
{
}

/// Each severity has its own name.
pub proof fn law_level_names(a: Level, b: Level)
    ensures
        level_name(a) == level_name(b) ==> a == b,
        level_name(Level::Error) == "error"@,
        level_name(Level::Warn) == "warn"@,
        level_name(Level::Info) == "info"@,
        level_name(Level::Debug) == "debug"@,
        level_name(Level::Trace) == "trace"@,
{
    reveal_strlit("error");
    reveal_strlit("warn");
    reveal_strlit("info");
    reveal_strlit("debug");
    reveal_strlit("trace");
    assert("error"@[0] == 'e' && "warn"@[0] == 'w' && "info"@[0] == 'i');
    assert("debug"@[0] == 'd' && "trace"@[0] == 't');
}

/// The configuration lies below the directory of the session where that is set, else below the home
/// directory, else below the data of the application; where none is set there is none.
pub proof fn law_config_dir(d: ConfigDirs, session: String, home: String, data: String)
    ensures
        d.xdg_config_home == Some(session) ==> config_dir_of(d) == Some(
            paths::joined(session@, "lan-mouse"@),
        ),
        d.xdg_config_home is None && d.home == Some(home) ==> config_dir_of(d) == Some(
            paths::joined(paths::joined(home@, ".config"@), "lan-mouse"@),
        ),
        d.xdg_config_home is None && d.home is None && d.appdata == Some(data) ==> config_dir_of(d)
            == Some(paths::joined(data@, "lan-mouse"@)),
        d.xdg_config_home is None && d.home is None && d.appdata is None ==> config_dir_of(
            d,
        ) is None,
{
}

/// A key counts unless it is blank; the first one goes before the second one, blank or not.
pub proof fn law_api_key(first: Seq<char>, second: Option<Seq<char>>, key: Seq<char>)
    ensures
        text::trim(first).len() > 0 ==> api_key(Some(first), second) == Some(first),
        text::trim(first).len() == 0 ==> api_key(Some(first), second) is None,
        text::trim(key).len() > 0 ==> api_key(None, Some(key)) == Some(key),
        text::trim(key).len() == 0 ==> api_key(None, Some(key)) is None,
        api_key(None, None) is None,
{
}

/// A registration counts exactly where it is under the name of this host and holds a token, and then
/// as it is.
pub proof fn law_usable_entry(c: TokenCacheView, name: Seq<char>)
    ensures
        usable_entry(None, name) is None,
        usable_entry(Some(c), name) == if c.name == name && c.token.len() > 0 {
            Some(c)
        } else {
            None
        },
{
}

/// Whether a list of actions starts shipping by a token, and does nothing else but tell so.
pub open spec fn ships(a: Seq<InitActionView>, host: Seq<char>, token: Seq<char>) -> bool {
    &&& a.len() == 3
    &&& a[0] is PrintError
    &&& a[1] is WriteStatus
    &&& a[2] == InitActionView::Ship { endpoint: host + "/v1/logs/bulk"@, token }
}

/// With a key and a registration that counts, this host ships by the token of the registration: at
/// once where nothing has changed of it, else after the server was told all that is known of it now,
/// whether or not the server took it; what the server took is kept.
pub proof fn law_registered_host_ships(s: RemoteInitView, c: TokenCacheView, e: Seq<char>)
    requires
        s.stage is Loading,
        s.api_key is Some,
        c.name == s.client_name,
        c.token.len() > 0,
    ensures
        ({
            let (t, a) = init_step(s, InitReplyView::Cache(Some(c)));
            if c.metadata == Some(s.metadata) {
                t.stage is Finished && ships(a, s.host, c.token)
            } else {
                let done = init_step(t, InitReplyView::Done);
                let failed = init_step(t, InitReplyView::Refused(e));
                &&& a == seq![
                    InitActionView::Patch {
                        url: s.host + "/v1/client"@,
                        token: c.token,
                        metadata: s.metadata,
                    },
                ]
                &&& done.0.stage is Finished
                &&& failed.0.stage is Finished
                &&& done.1[0] == InitActionView::Persist {
                    path: s.token_path,
                    cache: TokenCacheView {
                        client_id: c.client_id,
                        token: c.token,
                        name: c.name,
                        metadata: Some(s.metadata),
                    },
                    required: false,
                }
                &&& ships(done.1.skip(1), s.host, c.token)
                &&& failed.1[0] is PrintError
                &&& ships(failed.1.skip(1), s.host, c.token)
            }
        }),
{
}

/// With a key and no registration that counts, this host registers with the key under its name and
/// all that is known of it; what comes back is kept, and then it ships by the new token. A refusal of
/// either ends the start.
pub proof fn law_new_host_registers(
    s: RemoteInitView,
    cached: Option<TokenCacheView>,
    key: Seq<char>,
    client_id: Seq<char>,
    token: Seq<char>,
    e: Seq<char>,
)
    requires
        s.stage is Loading,
        s.api_key == Some(key),
        cached matches Some(c) ==> c.name != s.client_name || c.token.len() == 0,
    ensures
        ({
            let (t, a) = init_step(s, InitReplyView::Cache(cached));
            let (u, b) = init_step(t, InitReplyView::Registered { client_id, token });
            &&& a == seq![
                InitActionView::Register {
                    url: s.host + "/v1/register"@,
                    api_key: key,
                    name: s.client_name,
                    metadata: s.metadata,
                },
            ]
            &&& b == seq![
                InitActionView::Persist {
                    path: s.token_path,
                    cache: TokenCacheView {
                        client_id,
                        token,
                        name: s.client_name,
                        metadata: Some(s.metadata),
                    },
                    required: true,
                },
            ]
            &&& ships(init_step(u, InitReplyView::Done).1, s.host, token)
            &&& init_step(t, InitReplyView::Refused(e)).1 == seq![InitActionView::Fail(e)]
            &&& init_step(u, InitReplyView::Refused(e)).1 == seq![InitActionView::Fail(e)]
        }),
{
}

/// What is told of this host is what its environment says; it is known by its system and name, and
/// its logs go to the host that is set.
pub proof fn law_host_is_described(e: RemoteEnv, dir: Seq<char>, name: String, host: String)
    requires
        e.host_name == Some(name),
    ensures
        ({
            let s = loading(e, dir);
            &&& s.client_name == "lan-mouse-"@ + e.os@ + "-"@ + name@
            &&& s.metadata == ClientMetadataView {
                os: e.os@,
                arch: e.arch@,
                hostname: name@,
                version: e.version@,
                commit: e.commit@,
                branch: e.branch@,
                build_time: e.build_time@,
            }
            &&& s.token_path == paths::joined(dir, "remote-log-token.json"@)
            &&& e.host == Some(host) ==> s.host == host@
            &&& s.stage is Loading
        }),
{
}

/// A batch goes out when it is full, and when a second has passed since the last one; before that
/// the shipper waits for the rest of the second. At the end everything goes out.
pub proof fn law_shipping(s: ShipperView, now: u64)
    requires
        now >= s.last_flush,
    ensures
        s.buf.len() >= 256 ==> shipper_step(s, ShipperInputView::Empty, now).1
            == ShipperActionView::Send(s.buf),
        s.buf.len() > 0 && now - s.last_flush >= 1000 ==> shipper_step(
            s,
            ShipperInputView::Empty,
            now,
        ).1 == ShipperActionView::Send(s.buf),
        s.buf.len() < 256 && now - s.last_flush < 1000 ==> shipper_step(
            s,
            ShipperInputView::Empty,
            now,
        ) == (s, ShipperActionView::Receive((1000 - (now - s.last_flush)) as u64)),
        s.buf.len() < 256 ==> shipper_step(s, ShipperInputView::Timeout, now) == (
            s,
            ShipperActionView::TryReceive,
        ),
        shipper_step(s, ShipperInputView::Disconnected, now).1 == if s.buf.len() == 0 {
            ShipperActionView::Return
        } else {
            ShipperActionView::SendAndReturn(s.buf)
        },
        shipper_step(s, ShipperInputView::Flushed, now) == (
            ShipperView { last_flush: now, ..s },
            ShipperActionView::Receive(1000),
        ),
{
}

} // verus!
