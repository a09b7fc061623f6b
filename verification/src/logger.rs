//! Managing the registration with the log server from the command line.
use crate::cli::{CliAction, CliActionView};
use crate::uri::urlencode;
use crate::{cli, text, uri};
use vstd::prelude::*;
use vstd::utf8::*;

verus! {

/// File that the group of this host is kept in.
pub const GROUP_FILE: &'static str = "remote-log-group.json";

/// Most entries that are asked for.
pub const MAX_TAIL: u32 = 10000;

/// A group of hosts that see each other's logs.
#[derive(Debug)]
pub struct GroupCache {
    /// Number of the group.
    pub id: String,
    /// Name of the group.
    pub name: String,
    /// Number of the host that owns it.
    pub owner_id: String,
    /// Code by which others join; only the owner has it.
    pub invite_code: Option<String>,
}

fn push(out: &mut Vec<CliAction>, a: CliAction)
    ensures
        cli::action_views(final(out)@) == cli::action_views(old(out)@).push(a@),
{
    out.push(a);
    assert(cli::action_views(out@) =~= cli::action_views(old(out)@).push(a@));
}

fn nothing() -> (r: Vec<CliAction>)
    ensures
        cli::action_views(r@) == Seq::<CliActionView>::empty(),
{
    let r: Vec<CliAction> = Vec::new();
    assert(cli::action_views(r@) =~= Seq::empty());
    r
}

/// The name and number of a group.
pub open spec fn group_title(g: GroupCache) -> Seq<char> {
    "group \""@ + g.name@ + "\" ("@ + g.id@ + ")"@
}

fn title_of(g: &GroupCache) -> (r: String)
    ensures
        r@ == group_title(*g),
{
    let a: String = text::concat3("group \"", g.name.as_str(), "\" (");
    text::concat3(a.as_str(), g.id.as_str(), ")")
}

/// What the user is told of a group that was created and saved.
pub open spec fn created_report(g: GroupCache, path: Seq<char>) -> Seq<CliActionView> {
    seq![CliActionView::Print("created "@ + group_title(g))] + (match g.invite_code {
        Some(code) => seq![
            CliActionView::Print("invite_code: "@ + code@),
            CliActionView::Print(
                "share with the other hosts and have them run:\n  lan-mouse cli logger join "@
                    + code@,
            ),
        ],
        None => Seq::empty(),
    }) + seq![CliActionView::Print("saved to "@ + path)]
}

/// What the user is told of a group that was created and saved in a file.
pub fn create(group: &GroupCache, path: &str) -> (r: Vec<CliAction>)
    ensures
        cli::action_views(r@) == created_report(*group, path@),
{
    let mut out: Vec<CliAction> = nothing();
    let title: String = title_of(group);
    push(&mut out, CliAction::Print(text::concat2("created ", title.as_str())));
    match &group.invite_code {
        Some(code) => {
            push(&mut out, CliAction::Print(text::concat2("invite_code: ", code.as_str())));
            let line: String = text::concat2(
                "share with the other hosts and have them run:\n  lan-mouse cli logger join ",
                code.as_str(),
            );
            push(&mut out, CliAction::Print(line));
        },
        None => {},
    }
    push(&mut out, CliAction::Print(text::concat2("saved to ", path)));
    assert(cli::action_views(out@) =~= created_report(*group, path@));
    out
}

/// What the user is told of a group that was joined and saved in a file.
pub fn join(group: &GroupCache, path: &str) -> (r: Vec<CliAction>)
    ensures
        cli::action_views(r@) == seq![
            CliActionView::Print("joined "@ + group_title(*group)),
            CliActionView::Print("saved to "@ + path@),
        ],
{
    let mut out: Vec<CliAction> = nothing();
    let title: String = title_of(group);
    push(&mut out, CliAction::Print(text::concat2("joined ", title.as_str())));
    push(&mut out, CliAction::Print(text::concat2("saved to ", path)));
    proof {
        assert(cli::action_views(out@) =~= seq![
            CliActionView::Print("joined "@ + group_title(*group)),
            CliActionView::Print("saved to "@ + path@),
        ]);
    }
    out
}

// ----- groups ---------------------------------------------------------------

/// What the server tells of a group; what it does not tell is missing.
#[derive(Debug)]
pub struct GroupInfo {
    /// Number of the group.
    pub id: Option<String>,
    /// Name of the group.
    pub name: Option<String>,
    /// Number of the host that owns it.
    pub owner_id: Option<String>,
    /// Code by which others join.
    pub invite_code: Option<String>,
}

/// A text, or a mark where it is missing.
pub open spec fn or_mark(t: Option<String>, mark: Seq<char>) -> Seq<char> {
    match t {
        Some(t) => t@,
        None => mark,
    }
}

fn text_or(t: &Option<String>, mark: &str) -> (r: String)
    ensures
        r@ == or_mark(*t, mark@),
{
    match t {
        Some(t) => t.clone(),
        None => mark.to_owned(),
    }
}

/// What is printed of a group: its code only where this host owns it.
pub open spec fn group_lines(g: GroupInfo, client_id: Seq<char>) -> Seq<CliActionView> {
    let mine = or_mark(g.owner_id, "?"@) == client_id;
    let line = or_mark(g.id, "?"@) + "  "@ + or_mark(g.name, "?"@) + (if mine {
        " (owner)"@
    } else {
        ""@
    });
    match g.invite_code {
        Some(code) if mine => seq![
            CliActionView::Print(line),
            CliActionView::Print("    invite_code: "@ + code@),
        ],
        _ => seq![CliActionView::Print(line)],
    }
}

/// What is printed of groups.
pub open spec fn all_group_lines(groups: Seq<GroupInfo>, client_id: Seq<char>) -> Seq<CliActionView>
    decreases groups.len(),
{
    if groups.len() == 0 {
        Seq::empty()
    } else {
        all_group_lines(groups.drop_last(), client_id) + group_lines(groups.last(), client_id)
    }
}

fn push_group(out: &mut Vec<CliAction>, g: &GroupInfo, client_id: &str)
    ensures
        cli::action_views(final(out)@) == cli::action_views(old(out)@) + group_lines(
            *g,
            client_id@,
        ),
{
    let owner: String = text_or(&g.owner_id, "?");
    let mine: bool = text::str_eq(owner.as_str(), client_id);
    let id: String = text_or(&g.id, "?");
    let name: String = text_or(&g.name, "?");
    let a: String = text::concat3(id.as_str(), "  ", name.as_str());
    let line: String = text::concat2(
        a.as_str(),
        if mine {
            " (owner)"
        } else {
            ""
        },
    );
    push(out, CliAction::Print(line));
    match &g.invite_code {
        Some(code) => {
            if mine {
                push(out, CliAction::Print(text::concat2("    invite_code: ", code.as_str())));
            }
        },
        None => {},
    }
    proof {
        assert(cli::action_views(out@) =~= cli::action_views(old(out)@) + group_lines(
            *g,
            client_id@,
        ));
    }
}

/// What the user is told of the groups of this host, where the server answered with a list.
pub fn groups(answer: &Option<Vec<GroupInfo>>, client_id: &str) -> (r: Result<
    Vec<CliAction>,
    String,
>)
    ensures
        match answer {
            None => r is Err && r->Err_0@ == "unexpected response shape"@,
            Some(v) => r is Ok && cli::action_views(r->Ok_0@) == (if v@.len() == 0 {
                seq![
                    CliActionView::Print(
                        "(no groups; create one with `lan-mouse cli logger create <name>` or join via `... join <code>`)"@,
                    ),
                ]
            } else {
                all_group_lines(v@, client_id@)
            }),
        },
{
    let v: &Vec<GroupInfo> = match answer {
        Some(v) => v,
        None => {
            return Err("unexpected response shape".to_owned());
        },
    };
    let mut out: Vec<CliAction> = nothing();
    let n: usize = v.len();
    if n == 0 {
        push(
            &mut out,
            CliAction::Print(
                "(no groups; create one with `lan-mouse cli logger create <name>` or join via `... join <code>`)".to_owned(),
            ),
        );
        proof {
            assert(cli::action_views(out@) =~= seq![
                CliActionView::Print(
                    "(no groups; create one with `lan-mouse cli logger create <name>` or join via `... join <code>`)"@,
                ),
            ]);
        }
        return Ok(out);
    }
    let mut i: usize = 0;
    assert(v@.take(0) =~= Seq::empty());
    while i < n
        invariant
            n == v@.len(),
            i <= n,
            cli::action_views(out@) == all_group_lines(v@.take(i as int), client_id@),
        decreases n - i,
    {
        proof {
            assert(v@.take(i + 1).drop_last() =~= v@.take(i as int));
            assert(v@.take(i + 1).last() == v@[i as int]);
        }
        push_group(&mut out, &v[i], client_id);
        i += 1;
    }
    assert(v@.take(n as int) =~= v@);
    Ok(out)
}

// ----- versions -------------------------------------------------------------

/// What the server tells of a version of this host's description.
#[derive(Debug)]
pub struct VersionInfo {
    /// Number of the version.
    pub version: Option<u64>,
    /// When it was made.
    pub created_at: Option<String>,
    /// The description, as the server writes it; empty where it is missing.
    pub metadata: String,
}

/// The line of a version.
pub open spec fn version_line(v: VersionInfo) -> Seq<char> {
    let n = match v.version {
        Some(n) => n,
        None => 0,
    };
    "v"@ + text::padded(text::dec(n as nat), 3) + "  "@ + or_mark(v.created_at, "?"@) + "  "@
        + v.metadata@
}

/// The versions, one line each.
pub open spec fn version_lines(v: Seq<VersionInfo>) -> Seq<CliActionView> {
    Seq::new(v.len(), |i: int| CliActionView::Print(version_line(v[i])))
}

fn line_of_version(v: &VersionInfo) -> (r: String)
    ensures
        r@ == version_line(*v),
{
    let n: u64 = match v.version {
        Some(n) => n,
        None => 0,
    };
    let digits: String = text::dec_string(n);
    let column: String = text::pad_right(digits.as_str(), 3);
    let time: String = text_or(&v.created_at, "?");
    let a: String = text::concat3("v", column.as_str(), "  ");
    let b: String = text::concat3(a.as_str(), time.as_str(), "  ");
    text::concat2(b.as_str(), v.metadata.as_str())
}

/// What the user is told of the versions of this host's description, where the server answered
/// with a list.
pub fn versions(answer: &Option<Vec<VersionInfo>>) -> (r: Result<Vec<CliAction>, String>)
    ensures
        match answer {
            None => r is Err && r->Err_0@ == "unexpected response shape"@,
            Some(v) => r is Ok && cli::action_views(r->Ok_0@) == (if v@.len() == 0 {
                seq![
                    CliActionView::Print(
                        "(no versions — start lan-mouse at least once to populate)"@,
                    ),
                ]
            } else {
                version_lines(v@)
            }),
        },
{
    let v: &Vec<VersionInfo> = match answer {
        Some(v) => v,
        None => {
            return Err("unexpected response shape".to_owned());
        },
    };
    let mut out: Vec<CliAction> = nothing();
    let n: usize = v.len();
    if n == 0 {
        push(
            &mut out,
            CliAction::Print(
                "(no versions — start lan-mouse at least once to populate)".to_owned(),
            ),
        );
        proof {
            assert(cli::action_views(out@) =~= seq![
                CliActionView::Print(
                    "(no versions — start lan-mouse at least once to populate)"@,
                ),
            ]);
        }
        return Ok(out);
    }
    let mut i: usize = 0;
    while i < n
        invariant
            n == v@.len(),
            i <= n,
            cli::action_views(out@) == version_lines(v@.take(i as int)),
        decreases n - i,
    {
        push(&mut out, CliAction::Print(line_of_version(&v[i])));
        proof {
            assert(version_lines(v@.take(i + 1)) =~= version_lines(v@.take(i as int)).push(
                CliActionView::Print(version_line(v@[i as int])),
            ));
        }
        i += 1;
    }
    assert(v@.take(n as int) =~= v@);
    Ok(out)
}

// ----- tail -----------------------------------------------------------------

/// How many entries are asked for: at least one, at most [`MAX_TAIL`].
pub open spec fn tail_limit(limit: u32) -> u32 {
    if limit < 1 {
        1
    } else if limit > MAX_TAIL {
        MAX_TAIL
    } else {
        limit
    }
}

/// Where recent entries are asked for: those of a group, or this host's own; of one level, where
/// it is given.
pub open spec fn tail_path_of(
    limit: u32,
    level: Option<Seq<char>>,
    group_id: Option<Seq<char>>,
) -> Seq<char> {
    (match group_id {
        Some(id) => "/v1/groups/"@ + id + "/logs?limit="@,
        None => "/v1/logs?limit="@,
    }) + text::dec(tail_limit(limit) as nat) + "&with_metadata=1"@ + (match level {
        Some(l) => "&level="@ + uri::all_escaped(encode_utf8(l)),
        None => Seq::empty(),
    })
}

/// Where recent entries are asked for.
pub fn tail_path(limit: u32, level: &Option<String>, group_id: &Option<String>) -> (r: String)
    ensures
        r@ == tail_path_of(limit, text::opt_view(*level), text::opt_view(*group_id)),
{
    let n: u32 = if limit < 1 {
        1
    } else if limit > MAX_TAIL {
        MAX_TAIL
    } else {
        limit
    };
    let head: String = match group_id {
        Some(id) => text::concat3("/v1/groups/", id.as_str(), "/logs?limit="),
        None => "/v1/logs?limit=".to_owned(),
    };
    let digits: String = text::dec_string(n as u64);
    let path: String = text::concat3(head.as_str(), digits.as_str(), "&with_metadata=1");
    match level {
        Some(l) => {
            let value: String = urlencode(l.as_str());
            let r: String = text::concat3(path.as_str(), "&level=", value.as_str());
            assert(r@ =~= tail_path_of(limit, Some(l@), text::opt_view(*group_id)));
            r
        },
        None => {
            assert(path@ =~= tail_path_of(limit, None, text::opt_view(*group_id)));
            path
        },
    }
}

/// Host of an entry.
#[derive(Debug)]
pub struct HostInfo {
    /// Hostname.
    pub hostname: Option<String>,
    /// Operating system.
    pub os: Option<String>,
}

/// What the server tells of an entry; what it does not tell is missing.
#[derive(Debug)]
pub struct EntryInfo {
    /// When it was written.
    pub time: Option<String>,
    /// Level.
    pub level: Option<String>,
    /// Text.
    pub message: Option<String>,
    /// Host, as the server knows it.
    pub snapshot: Option<HostInfo>,
    /// Host, as the entry tells it.
    pub metadata: Option<HostInfo>,
    /// Version of the host's description.
    pub metadata_version: Option<u64>,
}

/// The host of an entry: as the server knows it, else as the entry tells it.
pub open spec fn host_of(e: EntryInfo) -> Option<HostInfo> {
    if e.snapshot is Some {
        e.snapshot
    } else {
        e.metadata
    }
}

/// The name of the host of an entry.
pub open spec fn hostname_of(e: EntryInfo) -> Seq<char> {
    match host_of(e) {
        Some(h) => or_mark(h.hostname, "?"@),
        None => "?"@,
    }
}

/// The operating system of the host of an entry.
pub open spec fn os_of(e: EntryInfo) -> Seq<char> {
    match host_of(e) {
        Some(h) => or_mark(h.os, "?"@),
        None => "?"@,
    }
}

/// The version column of an entry.
pub open spec fn version_of(e: EntryInfo) -> Seq<char> {
    match e.metadata_version {
        Some(v) => "v"@ + text::dec(v as nat),
        None => "--"@,
    }
}

/// The line of an entry, in columns.
pub open spec fn entry_line(e: EntryInfo) -> Seq<char> {
    or_mark(e.time, "--"@) + "  ["@ + text::padded(os_of(e), 7) + " "@ + text::padded(
        hostname_of(e),
        20,
    ) + " "@ + text::padded(version_of(e), 4) + "] "@ + text::padded(or_mark(e.level, "?"@), 5)
        + " "@ + or_mark(e.message, ""@)
}

/// The line of an entry.
pub fn print_entry(e: &EntryInfo) -> (r: String)
    ensures
        r@ == entry_line(*e),
{
    let time: String = text_or(&e.time, "--");
    let level: String = text_or(&e.level, "?");
    let message: String = text_or(&e.message, "");
    let host: &Option<HostInfo> = match &e.snapshot {
        Some(_) => &e.snapshot,
        None => &e.metadata,
    };
    let hostname: String = match host {
        Some(h) => text_or(&h.hostname, "?"),
        None => "?".to_owned(),
    };
    let os: String = match host {
        Some(h) => text_or(&h.os, "?"),
        None => "?".to_owned(),
    };
    let version: String = match e.metadata_version {
        Some(v) => {
            let digits: String = text::dec_string(v);
            text::concat2("v", digits.as_str())
        },
        None => "--".to_owned(),
    };
    let os_column: String = text::pad_right(os.as_str(), 7);
    let host_column: String = text::pad_right(hostname.as_str(), 20);
    let version_column: String = text::pad_right(version.as_str(), 4);
    let level_column: String = text::pad_right(level.as_str(), 5);
    let a: String = text::concat3(time.as_str(), "  [", os_column.as_str());
    let b: String = text::concat3(a.as_str(), " ", host_column.as_str());
    let c: String = text::concat3(b.as_str(), " ", version_column.as_str());
    let d: String = text::concat3(c.as_str(), "] ", level_column.as_str());
    text::concat3(d.as_str(), " ", message.as_str())
}

/// The entries, oldest first, and a line that sums them up.
pub open spec fn tail_report(entries: Seq<EntryInfo>, group_id: Option<Seq<char>>) -> Seq<
    CliActionView,
> {
    Seq::new(
        entries.len(),
        |i: int| CliActionView::Print(entry_line(entries[entries.len() - 1 - i])),
    ).push(
        CliActionView::PrintError(
            "--- "@ + text::dec(entries.len()) + " entries, "@ + (match group_id {
                Some(id) => "group "@ + id,
                None => "own logs"@,
            }) + " ---"@,
        ),
    )
}

/// What the user is told of recent entries, which the server lists newest first, where it answered
/// with a list.
pub fn tail(answer: &Option<Vec<EntryInfo>>, group_id: &Option<String>) -> (r: Result<
    Vec<CliAction>,
    String,
>)
    ensures
        match answer {
            None => r is Err && r->Err_0@ == "unexpected response shape"@,
            Some(v) => r is Ok && cli::action_views(r->Ok_0@) == tail_report(
                v@,
                text::opt_view(*group_id),
            ),
        },
{
    let v: &Vec<EntryInfo> = match answer {
        Some(v) => v,
        None => {
            return Err("unexpected response shape".to_owned());
        },
    };
    let mut out: Vec<CliAction> = nothing();
    let n: usize = v.len();
    let mut i: usize = 0;
    while i < n
        invariant
            n == v@.len(),
            i <= n,
            cli::action_views(out@).len() == i,
            forall|j: int|
                0 <= j < i ==> (#[trigger] cli::action_views(out@)[j]) == CliActionView::Print(
                    entry_line(v@[n - 1 - j]),
                ),
        decreases n - i,
    {
        push(&mut out, CliAction::Print(print_entry(&v[n - 1 - i])));
        i += 1;
    }
    let count: String = text::dec_string(n as u64);
    let what: String = match group_id {
        Some(id) => text::concat2("group ", id.as_str()),
        None => "own logs".to_owned(),
    };
    let a: String = text::concat3("--- ", count.as_str(), " entries, ");
    push(&mut out, CliAction::PrintError(text::concat3(a.as_str(), what.as_str(), " ---")));
    assert(cli::action_views(out@) =~= tail_report(v@, text::opt_view(*group_id)));
    Ok(out)
}

// ----- status ---------------------------------------------------------------

/// What is kept of the group of this host.
#[derive(Debug)]
pub enum GroupState {
    /// Nothing.
    NotJoined,
    /// Something that cannot be read; holds the reason.
    Unreadable(String),
    /// A group.
    Joined(GroupCache),
}

/// The group whose entries are asked for: that of this host, unless it is in none or only its own
/// entries are wanted.
pub fn tail_group(state: &GroupState, mine_only: bool) -> (r: Option<String>)
    ensures
        text::opt_view(r) == (match state {
            GroupState::Joined(g) if !mine_only => Some(g.id@),
            _ => None,
        }),
{
    match state {
        GroupState::Joined(g) => if mine_only {
            None
        } else {
            Some(g.id.clone())
        },
        _ => None,
    }
}

/// What the user is told of the group of this host.
pub open spec fn group_report(g: GroupState) -> Seq<CliActionView> {
    match g {
        GroupState::Joined(g) => seq![
            CliActionView::Print("group:       "@ + g.name@ + " ("@ + g.id@ + ")"@),
        ] + (match g.invite_code {
            Some(code) => seq![
                CliActionView::Print(
                    "invite_code: "@ + code@
                        + "  (you own this group — share with other hosts)"@,
                ),
            ],
            None => Seq::empty(),
        }),
        GroupState::Unreadable(e) => seq![
            CliActionView::PrintError("group cache present but unreadable: "@ + e@),
        ],
        GroupState::NotJoined => seq![
            CliActionView::Print(
                "group:       (not joined; run `lan-mouse cli logger join <code>`)"@,
            ),
        ],
    }
}

/// What the user is told of the shipping: the last line of the state file.
pub open spec fn shipper_line(state: Option<Seq<char>>, path: Seq<char>) -> Seq<char> {
    match state {
        Some(raw) => match text::last_line(raw) {
            Some(line) => "shipper:     "@ + line,
            None => "shipper:     (status file empty — start lan-mouse to populate)"@,
        },
        None => "shipper:     (no status yet — start lan-mouse once; status written to "@ + path
            + ")"@,
    }
}

/// What the user is told of the registration, the group and the shipping.
pub open spec fn status_report(
    name: Seq<char>,
    client_id: Seq<char>,
    group: GroupState,
    state: Option<Seq<char>>,
    status_path: Seq<char>,
) -> Seq<CliActionView> {
    seq![
        CliActionView::Print("client name: "@ + name),
        CliActionView::Print("client_id:   "@ + client_id),
    ] + group_report(group) + seq![CliActionView::Print(shipper_line(state, status_path))]
}

fn push_group_state(out: &mut Vec<CliAction>, group: &GroupState)
    ensures
        cli::action_views(final(out)@) == cli::action_views(old(out)@) + group_report(*group),
{
    match group {
        GroupState::Joined(g) => {
            let a: String = text::concat3("group:       ", g.name.as_str(), " (");
            push(out, CliAction::Print(text::concat3(a.as_str(), g.id.as_str(), ")")));
            match &g.invite_code {
                Some(code) => {
                    let line: String = text::concat3(
                        "invite_code: ",
                        code.as_str(),
                        "  (you own this group — share with other hosts)",
                    );
                    push(out, CliAction::Print(line));
                },
                None => {},
            }
        },
        GroupState::Unreadable(e) => {
            let line: String = text::concat2(
                "group cache present but unreadable: ",
                e.as_str(),
            );
            push(out, CliAction::PrintError(line));
        },
        GroupState::NotJoined => {
            push(
                out,
                CliAction::Print(
                    "group:       (not joined; run `lan-mouse cli logger join <code>`)".to_owned(),
                ),
            );
        },
    }
    proof {
        assert(cli::action_views(out@) =~= cli::action_views(old(out)@) + group_report(*group));
    }
}

/// What the user is told of the registration, the group and the shipping, given the state file
/// where it could be read.
pub fn status(
    name: &str,
    client_id: &str,
    group: &GroupState,
    state: &Option<String>,
    status_path: &str,
) -> (r: Vec<CliAction>)
    ensures
        cli::action_views(r@) == status_report(
            name@,
            client_id@,
            *group,
            text::opt_view(*state),
            status_path@,
        ),
{
    let mut out: Vec<CliAction> = nothing();
    push(&mut out, CliAction::Print(text::concat2("client name: ", name)));
    push(&mut out, CliAction::Print(text::concat2("client_id:   ", client_id)));
    push_group_state(&mut out, group);
    let line: String = match state {
        Some(raw) => match text::last_nonblank_line(raw.as_str()) {
            Some(last) => text::concat2("shipper:     ", last.as_str()),
            None => "shipper:     (status file empty — start lan-mouse to populate)".to_owned(),
        },
        None => text::concat3(
            "shipper:     (no status yet — start lan-mouse once; status written to ",
            status_path,
            ")",
        ),
    };
    push(&mut out, CliAction::Print(line));
    proof {
        assert(cli::action_views(out@) =~= status_report(
            name@,
            client_id@,
            *group,
            text::opt_view(*state),
            status_path@,
        ));
    }
    out
}

/// What the user is told where this host is not registered.
pub fn no_token_message(path: &str, e: &str) -> (r: String)
    ensures
        r@ == "no token cache at "@ + path@ + " ("@ + e@
            + "). Start the daemon once with LOGGER_APIKEY set so it can register."@,
{
    let a: String = text::concat3("no token cache at ", path, " (");
    text::concat3(
        a.as_str(),
        e,
        "). Start the daemon once with LOGGER_APIKEY set so it can register.",
    )
}

// ----- laws -----------------------------------------------------------------

/// The code of a group is printed only where this host owns the group.
pub proof fn law_code_only_for_owner(g: GroupInfo, client_id: Seq<char>)
    requires
        or_mark(g.owner_id, "?"@) != client_id,
    ensures
        group_lines(g, client_id).len() == 1,
{
}

/// A level that is asked for cannot change the rest of the request: nothing in it separates
/// parameters.
pub proof fn law_level_cannot_escape(level: Seq<char>, i: int)
    requires
        0 <= i < uri::all_escaped(encode_utf8(level)).len(),
    ensures
        uri::all_escaped(encode_utf8(level))[i] != '&',
        uri::all_escaped(encode_utf8(level))[i] != '=',
{
    uri::law_encoded_is_safe(encode_utf8(level), i);
}

/// Entries are printed oldest first: in the reverse order of the server's list.
pub proof fn law_tail_reversed(entries: Seq<EntryInfo>, group_id: Option<Seq<char>>, i: int)
    requires
        0 <= i < entries.len(),
    ensures
        tail_report(entries, group_id)[i] == CliActionView::Print(
            entry_line(entries[entries.len() - 1 - i]),
        ),
{
}

/// A group is printed with its number and name; its code where this host owns it, and the owner is
/// marked.
pub proof fn law_group_lines(g: GroupInfo, id: String, name: String, owner: String, code: String)
    requires
        g.id == Some(id),
        g.name == Some(name),
        g.owner_id == Some(owner),
    ensures
        ({
            let mine = group_lines(g, owner@);
            &&& mine[0] matches CliActionView::Print(line) && (id@ + "  "@ + name@).is_prefix_of(line)
                && " (owner)"@.is_suffix_of(line)
            &&& g.invite_code == Some(code) ==> mine.len() == 2 && (mine[1] matches CliActionView::Print(
                line,
            ) && code@.is_suffix_of(line))
            &&& g.invite_code is None ==> mine.len() == 1
        }),
{
    let t = id@ + "  "@ + name@;
    let line = t + " (owner)"@;
    assert(line.subrange(0, t.len() as int) =~= t);
    assert(line.subrange(line.len() - " (owner)"@.len(), line.len() as int) =~= " (owner)"@);
    let l2 = "    invite_code: "@ + code@;
    assert(l2.subrange(l2.len() - code@.len(), l2.len() as int) =~= code@);
}

/// Groups are printed one after the other.
pub proof fn law_groups_in_order(a: Seq<GroupInfo>, g: GroupInfo, client_id: Seq<char>)
    ensures
        all_group_lines(Seq::empty(), client_id).len() == 0,
        all_group_lines(a.push(g), client_id) == all_group_lines(a, client_id) + group_lines(
            g,
            client_id,
        ),
{
    assert(a.push(g).drop_last() =~= a);
}

/// A group that was created is told with its name and number first and the place where it is kept
/// last; its code, where there is one, is told on its own and in the command that joins.
pub proof fn law_created_report(g: GroupCache, code: String, path: Seq<char>)
    ensures
        ({
            let r = created_report(g, path);
            &&& r[0] matches CliActionView::Print(line) && line == "created group \""@ + g.name@
                + "\" ("@ + g.id@ + ")"@
            &&& r.last() matches CliActionView::Print(line) && path.is_suffix_of(line)
            &&& g.invite_code is None ==> r.len() == 2
            &&& g.invite_code == Some(code) ==> {
                &&& r.len() == 4
                &&& r[1] matches CliActionView::Print(line) && code@.is_suffix_of(line)
                &&& r[2] matches CliActionView::Print(line) && (
                "lan-mouse cli logger join "@ + code@).is_suffix_of(line)
            }
        }),
{
    let r = created_report(g, path);
    reveal_strlit("created ");
    reveal_strlit("group \"");
    reveal_strlit("created group \"");
    assert("created "@ + group_title(g) =~= "created group \""@ + g.name@ + "\" ("@ + g.id@ + ")"@);
    let last = "saved to "@ + path;
    assert(last.subrange(last.len() - path.len(), last.len() as int) =~= path);
    reveal_strlit("lan-mouse cli logger join ");
    reveal_strlit("share with the other hosts and have them run:\n  lan-mouse cli logger join ");
    let a = "invite_code: "@ + code@;
    assert(a.subrange(a.len() - code@.len(), a.len() as int) =~= code@);
    let b = "share with the other hosts and have them run:\n  lan-mouse cli logger join "@ + code@;
    let t = "lan-mouse cli logger join "@ + code@;
    assert(b.subrange(b.len() - t.len(), b.len() as int) =~= t);
}

/// The number of entries that is asked for is the given one, brought into range.
pub proof fn law_tail_limit(limit: u32)
    ensures
        1 <= tail_limit(limit) <= 10000,
        1 <= limit <= 10000 ==> tail_limit(limit) == limit,
        limit > 10000 ==> tail_limit(limit) == 10000,
        limit == 0 ==> tail_limit(limit) == 1,
{
}

/// Entries of a group are asked for under its number, this host's own without one; a level is asked
/// for only where it is given.
pub proof fn law_tail_path(limit: u32, level: Seq<char>, id: Seq<char>)
    ensures
        ({
            let n = text::dec(tail_limit(limit) as nat) + "&with_metadata=1"@;
            let l = "&level="@ + uri::all_escaped(encode_utf8(level));
            &&& tail_path_of(limit, None, None) == "/v1/logs?limit="@ + n
            &&& tail_path_of(limit, None, Some(id)) == "/v1/groups/"@ + id + "/logs?limit="@ + n
            &&& tail_path_of(limit, Some(level), None) == tail_path_of(limit, None, None) + l
            &&& tail_path_of(limit, Some(level), Some(id)) == tail_path_of(limit, None, Some(id))
                + l
        }),
{
    let n = text::dec(tail_limit(limit) as nat) + "&with_metadata=1"@;
    let l = "&level="@ + uri::all_escaped(encode_utf8(level));
    assert(tail_path_of(limit, None, None) =~= "/v1/logs?limit="@ + n);
    assert(tail_path_of(limit, None, Some(id)) =~= "/v1/groups/"@ + id + "/logs?limit="@ + n);
    assert(tail_path_of(limit, Some(level), None) =~= tail_path_of(limit, None, None) + l);
    assert(tail_path_of(limit, Some(level), Some(id)) =~= tail_path_of(limit, None, Some(id)) + l);
}

/// An entry is printed from its time to its message, in one line.
pub proof fn law_entry_line(e: EntryInfo, time: String, message: String)
    requires
        e.time == Some(time),
        e.message == Some(message),
    ensures
        (time@ + "  ["@).is_prefix_of(entry_line(e)),
        (" "@ + message@).is_suffix_of(entry_line(e)),
        e.level matches Some(l) ==> ("] "@ + text::padded(l@, 5) + " "@ + message@).is_suffix_of(
            entry_line(e),
        ),
{
    let r = entry_line(e);
    let head = time@ + "  ["@;
    let tail = " "@ + message@;
    assert(r.subrange(0, head.len() as int) =~= head);
    assert(r.subrange(r.len() - tail.len(), r.len() as int) =~= tail);
    if let Some(l) = e.level {
        let t = "] "@ + text::padded(l@, 5) + " "@ + message@;
        assert(r.subrange(r.len() - t.len(), r.len() as int) =~= t);
    }
}

/// What the server knows of a host goes before what an entry tells of it.
pub proof fn law_host_of_entry(e: EntryInfo, h: HostInfo)
    ensures
        e.snapshot == Some(h) ==> host_of(e) == Some(h),
        e.snapshot is None ==> host_of(e) == e.metadata,
        host_of(e) is None ==> hostname_of(e) == "?"@ && os_of(e) == "?"@,
        host_of(e) == Some(h) ==> hostname_of(e) == or_mark(h.hostname, "?"@) && os_of(e) == or_mark(
            h.os,
            "?"@,
        ),
{
}

/// A report of entries has a line for each and one that counts them.
pub proof fn law_tail_counts(entries: Seq<EntryInfo>, group_id: Option<Seq<char>>)
    ensures
        tail_report(entries, group_id).len() == entries.len() + 1,
        tail_report(entries, group_id).last() matches CliActionView::PrintError(line) && (
        "--- "@ + text::dec(entries.len()) + " entries, "@).is_prefix_of(line),
{
    let t = "--- "@ + text::dec(entries.len()) + " entries, "@;
    let rest = (match group_id {
        Some(id) => "group "@ + id,
        None => "own logs"@,
    });
    let line = t + rest + " ---"@;
    assert(line.subrange(0, t.len() as int) =~= t);
}

/// What is told of the registration: the name and number of this host, its group, and last the
/// state of the shipping.
pub proof fn law_status_report(
    name: Seq<char>,
    client_id: Seq<char>,
    group: GroupState,
    state: Option<Seq<char>>,
    path: Seq<char>,
)
    ensures
        ({
            let r = status_report(name, client_id, group, state, path);
            &&& r.len() == group_report(group).len() + 3
            &&& r[0] matches CliActionView::Print(line) && name.is_suffix_of(line)
            &&& r[1] matches CliActionView::Print(line) && client_id.is_suffix_of(line)
            &&& r.subrange(2, r.len() - 1) == group_report(group)
            &&& r.last() matches CliActionView::Print(line) && (state matches Some(raw)
                ==> text::last_line(raw) matches Some(l) ==> l.is_suffix_of(line))
        }),
        group matches GroupState::NotJoined ==> group_report(group).len() == 1,
        group matches GroupState::Unreadable(e) ==> group_report(group).len() == 1 && (
        group_report(group)[0] matches CliActionView::PrintError(line) && e@.is_suffix_of(line)),
        group matches GroupState::Joined(g) ==> group_report(group).len() == (
        if g.invite_code is Some {
            2nat
        } else {
            1nat
        }),
{
    let r = status_report(name, client_id, group, state, path);
    let a = "client name: "@ + name;
    let b = "client_id:   "@ + client_id;
    assert(a.subrange(a.len() - name.len(), a.len() as int) =~= name);
    assert(b.subrange(b.len() - client_id.len(), b.len() as int) =~= client_id);
    assert(r.subrange(2, r.len() - 1) =~= group_report(group));
    if let Some(raw) = state {
        if let Some(l) = text::last_line(raw) {
            let s = "shipper:     "@ + l;
            assert(s.subrange(s.len() - l.len(), s.len() as int) =~= l);
        }
    }
    if let GroupState::Unreadable(e) = group {
        let s = "group cache present but unreadable: "@ + e@;
        assert(s.subrange(s.len() - e@.len(), s.len() as int) =~= e@);
    }
}

/// A version is printed with its number in a column, its time and what was told; a number that is
/// missing counts as none.
pub proof fn law_version_line(v: VersionInfo, n: u64, time: String)
    requires
        v.version == Some(n),
        v.created_at == Some(time),
    ensures
        ("v"@ + text::padded(text::dec(n as nat), 3)).is_prefix_of(version_line(v)),
        ("  "@ + time@ + "  "@ + v.metadata@).is_suffix_of(version_line(v)),
{
    let r = version_line(v);
    let head = "v"@ + text::padded(text::dec(n as nat), 3);
    let tail = "  "@ + time@ + "  "@ + v.metadata@;
    assert(r =~= head + tail);
    assert(r.subrange(0, head.len() as int) =~= head);
    assert(r.subrange(r.len() - tail.len(), r.len() as int) =~= tail);
}

/// Versions are printed one line each, in order.
pub proof fn law_version_lines(v: Seq<VersionInfo>, i: int)
    ensures
        version_lines(v).len() == v.len(),
        0 <= i < v.len() ==> version_lines(v)[i] == CliActionView::Print(version_line(v[i])),
{
}

/// The version column of an entry is its number behind a `v`, or a dash where it has none.
pub proof fn law_version_of(e: EntryInfo, v: u64)
    ensures
        e.metadata_version == Some(v) ==> version_of(e) == "v"@ + text::dec(v as nat),
        e.metadata_version is None ==> version_of(e) == "--"@,
{
}

} // verus!
