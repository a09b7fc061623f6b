//! The settings window.
use crate::ipc::Settings;
use crate::net::IpAddr;
use crate::ui::window;
use crate::ui::window::{offers, Interface};
use crate::windows_service::{Error, InstalledState};
use crate::{ipc, text};
use vstd::prelude::*;

verus! {

// ----- addresses to listen on -----------------------------------------------

/// The choices for the address to listen on: all, or one of this host's.
pub open spec fn listen_choices(ifaces: Seq<Interface>, v6: bool) -> Seq<Seq<char>>
    decreases ifaces.len(),
{
    if ifaces.len() == 0 {
        seq![
            if v6 {
                "All interfaces ([::])"@
            } else {
                "All interfaces (0.0.0.0)"@
            },
        ]
    } else {
        let front = listen_choices(ifaces.drop_last(), v6);
        let last = ifaces.last();
        if (v6 && window::offers_v6(last)) || (!v6 && window::offers_v4(last)) {
            front.push(last.address@ + " ("@ + last.name@ + ")"@)
        } else {
            front
        }
    }
}

/// The choices for the address to listen on.
pub fn listen_options(ifaces: &Vec<Interface>, v6: bool) -> (r: Vec<String>)
    ensures
        text::views(r@) == listen_choices(ifaces@, v6),
{
    let mut r: Vec<String> = Vec::new();
    r.push(
        if v6 {
            "All interfaces ([::])".to_owned()
        } else {
            "All interfaces (0.0.0.0)".to_owned()
        },
    );
    let n: usize = ifaces.len();
    let mut i: usize = 0;
    assert(ifaces@.take(0) =~= Seq::empty());
    assert(text::views(r@) =~= listen_choices(ifaces@.take(0), v6));
    while i < n
        invariant
            n == ifaces@.len(),
            i <= n,
            text::views(r@) == listen_choices(ifaces@.take(i as int), v6),
        decreases n - i,
    {
        proof {
            assert(ifaces@.take(i + 1).drop_last() =~= ifaces@.take(i as int));
            assert(ifaces@.take(i + 1).last() == ifaces@[i as int]);
        }
        if offers(&ifaces[i], v6) {
            let a: String = text::concat3(
                ifaces[i].address.as_str(),
                " (",
                ifaces[i].name.as_str(),
            );
            let line: String = text::concat2(a.as_str(), ")");
            proof {
                text::lemma_views_push(r@, line);
            }
            r.push(line);
        }
        i += 1;
    }
    assert(ifaces@.take(n as int) =~= ifaces@);
    r
}

/// The first choice that starts with an address.
pub open spec fn choice_of(choices: Seq<Seq<char>>, address: Seq<char>) -> Option<int>
    decreases choices.len(),
{
    if choices.len() == 0 {
        None
    } else if address.is_prefix_of(choices[0]) {
        Some(0)
    } else {
        match choice_of(choices.skip(1), address) {
            Some(i) => Some(i + 1),
            None => None,
        }
    }
}

/// The choice that is selected for an address to listen on; the selection stays where there is
/// none.
pub fn selected_for(choices: &Vec<String>, address: &str) -> (r: Option<usize>)
    ensures
        match r {
            Some(i) => choice_of(text::views(choices@), address@) == Some(i as int),
            None => choice_of(text::views(choices@), address@) is None,
        },
{
    let ghost all = text::views(choices@);
    let n: usize = choices.len();
    let mut i: usize = 0;
    assert(all.skip(0) =~= all);
    while i < n
        invariant
            n == choices@.len() == all.len(),
            all == text::views(choices@),
            i <= n,
            choice_of(all, address@) == (match choice_of(all.skip(i as int), address@) {
                Some(k) => Some(k + i),
                None => None,
            }),
        decreases n - i,
    {
        proof {
            assert(all.skip(i as int)[0] == choices@[i as int]@);
            assert(all.skip(i as int).skip(1) =~= all.skip(i + 1));
        }
        if text::strip_prefix(choices[i].as_str(), address).is_some() {
            return Some(i);
        }
        i += 1;
    }
    None
}

/// The address in a choice: what comes before the first space.
pub open spec fn address_in(choice: Seq<char>) -> Seq<char> {
    text::split(choice, ' ')[0]
}

/// The address in the selected choice; none for the choice of all.
pub fn selected_address(choices: &Vec<String>, selected: usize) -> (r: Option<String>)
    requires
        selected < choices@.len(),
    ensures
        text::opt_view(r) == (if selected == 0 {
            None
        } else {
            Some(address_in(choices@[selected as int]@))
        }),
{
    if selected == 0 {
        return None;
    }
    let chars: Vec<char> = text::chars_of(choices[selected].as_str());
    let parts: Vec<String> = text::split_chars(chars.as_slice(), ' ');
    proof {
        lemma_split_nonempty(Seq::empty(), chars@, ' ');
        assert(text::views(parts@).len() == parts@.len());
        assert(text::views(parts@)[0] == parts@[0]@);
    }
    Some(parts[0].clone())
}

proof fn lemma_split_nonempty(cur: Seq<char>, rest: Seq<char>, sep: char)
    ensures
        text::split_from(cur, rest, sep).len() > 0,
    decreases rest.len(),
{
    if rest.len() > 0 && rest[0] != sep {
        lemma_split_nonempty(cur.push(rest[0]), rest.skip(1), sep);
    }
}

// ----- release keys ---------------------------------------------------------

/// How a key is shown.
pub open spec fn key_text(k: Seq<char>) -> Seq<char> {
    let short = match text::without_prefix(k, "Key"@) {
        Some(rest) => rest,
        None => k,
    };
    text::replaced(text::replaced(short, "Left"@, "L-"@), "Right"@, "R-"@)
}

/// How keys are shown.
pub open spec fn key_texts(keys: Seq<Seq<char>>) -> Seq<Seq<char>> {
    Seq::new(keys.len(), |i: int| key_text(keys[i]))
}

/// How the keys that release the mouse are shown.
pub open spec fn release_text(keys: Seq<Seq<char>>) -> Seq<char> {
    "Current: "@ + text::join(key_texts(keys), " + "@)
}

fn shown_key(k: &str) -> (r: String)
    ensures
        r@ == key_text(k@),
{
    let short: String = match text::strip_prefix(k, "Key") {
        Some(rest) => rest,
        None => k.to_owned(),
    };
    proof {
        reveal_strlit("Left");
        reveal_strlit("Right");
    }
    let a: String = text::replace_all(short.as_str(), "Left", "L-");
    text::replace_all(a.as_str(), "Right", "R-")
}

/// How the keys that release the mouse are shown.
pub fn release_bind_label(keys: &Vec<String>) -> (r: String)
    ensures
        r@ == release_text(text::views(keys@)),
{
    let mut shown: Vec<String> = Vec::new();
    let n: usize = keys.len();
    let mut i: usize = 0;
    while i < n
        invariant
            n == keys@.len(),
            i <= n,
            shown@.len() == i,
            forall|j: int| 0 <= j < i ==> (#[trigger] shown@[j])@ == key_text(keys@[j]@),
        decreases n - i,
    {
        shown.push(shown_key(keys[i].as_str()));
        i += 1;
    }
    assert(text::views(shown@) =~= key_texts(text::views(keys@)));
    let list: String = text::join_strings(&shown, " + ");
    text::concat2("Current: ", list.as_str())
}

// ----- the form -------------------------------------------------------------

/// What the settings window shows.
#[derive(Debug)]
pub struct SettingsForm {
    /// Switch for being found from the start.
    pub discoverable_on_startup: bool,
    /// Switch for accepting devices that are found.
    pub auto_accept: bool,
    /// Whether the warning about that is shown.
    pub auto_accept_warning: bool,
    /// Switch for starting without a window.
    pub start_minimized: bool,
    /// Switch for the newer family.
    pub ipv6_enabled: bool,
    /// Selected address of the older family, where it changes.
    pub listen_ipv4: Option<usize>,
    /// Selected address of the newer family, where it changes.
    pub listen_ipv6: Option<usize>,
    /// Keys that release the mouse.
    pub release_bind: String,
}

/// The selection for an address to listen on.
pub open spec fn selection(
    r: Option<usize>,
    choices: Seq<Seq<char>>,
    address: Option<Seq<char>>,
) -> bool {
    match address {
        Some(a) => match r {
            Some(i) => choice_of(choices, a) == Some(i as int),
            None => choice_of(choices, a) is None,
        },
        None => r is None,
    }
}

fn select(choices: &Vec<String>, address: &Option<String>) -> (r: Option<usize>)
    ensures
        selection(r, text::views(choices@), text::opt_view(*address)),
{
    match address {
        Some(a) => selected_for(choices, a.as_str()),
        None => None,
    }
}

/// What the settings window shows of settings, whose addresses to listen on are given as text.
pub fn apply_settings(
    settings: &Settings,
    listen_ipv4: &Option<String>,
    listen_ipv6: &Option<String>,
    ipv4_choices: &Vec<String>,
    ipv6_choices: &Vec<String>,
) -> (r: SettingsForm)
    ensures
        r.discoverable_on_startup == settings.discoverable_on_startup,
        r.auto_accept == settings.auto_accept_discovered,
        r.auto_accept_warning == settings.auto_accept_discovered,
        r.start_minimized == settings.start_minimized,
        r.ipv6_enabled == settings.ipv6_enabled,
        selection(r.listen_ipv4, text::views(ipv4_choices@), text::opt_view(*listen_ipv4)),
        selection(r.listen_ipv6, text::views(ipv6_choices@), text::opt_view(*listen_ipv6)),
        r.release_bind@ == release_text(text::views(settings.release_bind@)),
{
    SettingsForm {
        discoverable_on_startup: settings.discoverable_on_startup,
        auto_accept: settings.auto_accept_discovered,
        auto_accept_warning: settings.auto_accept_discovered,
        start_minimized: settings.start_minimized,
        ipv6_enabled: settings.ipv6_enabled,
        listen_ipv4: select(ipv4_choices, listen_ipv4),
        listen_ipv6: select(ipv6_choices, listen_ipv6),
        release_bind: release_bind_label(&settings.release_bind),
    }
}

/// The settings that the window holds, whose selected addresses have been read; the keys that
/// release the mouse cannot be changed there.
pub fn collect_settings(
    discoverable_on_startup: bool,
    auto_accept: bool,
    start_minimized: bool,
    ipv6_enabled: bool,
    listen_ipv4: Option<IpAddr>,
    listen_ipv6: Option<IpAddr>,
) -> (r: Settings)
    ensures
        r@ == (ipc::SettingsView {
            discoverable_on_startup,
            auto_accept_discovered: auto_accept,
            start_minimized,
            listen_ipv4,
            listen_ipv6,
            ipv6_enabled,
            release_bind: Seq::empty(),
        }),
{
    let r: Settings = Settings {
        discoverable_on_startup,
        auto_accept_discovered: auto_accept,
        start_minimized,
        listen_ipv4,
        listen_ipv6,
        ipv6_enabled,
        release_bind: Vec::new(),
    };
    assert(text::views(r.release_bind@) =~= Seq::empty());
    r
}

// ----- the Windows service --------------------------------------------------

/// What the window shows of the Windows service.
#[derive(Debug)]
pub struct ServicePanel {
    /// State.
    pub text: String,
    /// Whether it can be installed.
    pub install: bool,
    /// Whether it can be removed.
    pub uninstall: bool,
    /// Whether it can be started.
    pub start: bool,
    /// Whether it can be stopped.
    pub stop: bool,
}

/// What is shown of a state: the text, and whether the service can be installed, removed, started
/// and stopped.
pub open spec fn panel_of(state: Option<InstalledState>) -> (Seq<char>, bool, bool, bool, bool) {
    match state {
        Some(InstalledState::NotInstalled) => ("Not installed"@, true, false, false, false),
        Some(InstalledState::Stopped) => ("Installed — stopped"@, false, true, true, false),
        Some(InstalledState::Running) => ("Installed — running"@, false, true, false, true),
        Some(InstalledState::StartPending) => ("Starting…"@, false, true, false, true),
        Some(InstalledState::StopPending) => ("Stopping…"@, false, true, true, false),
        Some(InstalledState::Other) => ("Installed — unknown state"@, false, true, true, true),
        None => (
            "Status unavailable (try opening as administrator)"@,
            true,
            true,
            true,
            true,
        ),
    }
}

fn panel(text: &str, install: bool, uninstall: bool, start: bool, stop: bool) -> (r: ServicePanel)
    ensures
        (r.text@, r.install, r.uninstall, r.start, r.stop) == (
            text@,
            install,
            uninstall,
            start,
            stop,
        ),
{
    ServicePanel { text: text.to_owned(), install, uninstall, start, stop }
}

/// What the window shows of the Windows service, given its state where it could be asked for.
pub fn refresh_service_status(status: &Result<InstalledState, Error>) -> (r: ServicePanel)
    ensures
        (r.text@, r.install, r.uninstall, r.start, r.stop) == panel_of(
            match status {
                Ok(s) => Some(*s),
                Err(_) => None,
            },
        ),
{
    match status {
        Ok(InstalledState::NotInstalled) => panel("Not installed", true, false, false, false),
        Ok(InstalledState::Stopped) => panel("Installed — stopped", false, true, true, false),
        Ok(InstalledState::Running) => panel("Installed — running", false, true, false, true),
        Ok(InstalledState::StartPending) => panel("Starting…", false, true, false, true),
        Ok(InstalledState::StopPending) => panel("Stopping…", false, true, true, false),
        Ok(InstalledState::Other) => panel(
            "Installed — unknown state",
            false,
            true,
            true,
            true,
        ),
        Err(_) => panel(
            "Status unavailable (try opening as administrator)",
            true,
            true,
            true,
            true,
        ),
    }
}

// ----- laws -----------------------------------------------------------------

/// The choice that is selected for an address starts with it.
pub proof fn law_selection_starts_with_address(choices: Seq<Seq<char>>, address: Seq<char>)
    ensures
        match choice_of(choices, address) {
            Some(i) => 0 <= i < choices.len() && address.is_prefix_of(choices[i]),
            None => forall|i: int|
                0 <= i < choices.len() ==> !address.is_prefix_of(#[trigger] choices[i]),
        },
    decreases choices.len(),
{
    if choices.len() > 0 && !address.is_prefix_of(choices[0]) {
        let rest = choices.skip(1);
        law_selection_starts_with_address(rest, address);
        if choice_of(rest, address) is None {
            assert forall|i: int| 0 <= i < choices.len() implies !address.is_prefix_of(
                #[trigger] choices[i],
            ) by {
                if i > 0 {
                    assert(rest[i - 1] == choices[i]);
                }
            }
        } else {
            let k = choice_of(rest, address)->0;
            assert(choices[k + 1] == rest[k]);
        }
    }
}

/// What a choice shows is read back: the address of an interface comes back out of its choice,
/// unless it holds a space.
pub proof fn law_choice_roundtrip(address: Seq<char>, name: Seq<char>)
    requires
        forall|i: int| 0 <= i < address.len() ==> #[trigger] address[i] != ' ',
    ensures
        address_in(address + " ("@ + name + ")"@) == address,
{
    reveal_strlit(" (");
    let choice = address + " ("@ + name + ")"@;
    let tail = seq!['('] + name + ")"@;
    assert(choice =~= address.push(' ') + tail);
    lemma_first_piece(Seq::empty(), address, tail);
}

proof fn lemma_first_piece(cur: Seq<char>, piece: Seq<char>, tail: Seq<char>)
    requires
        forall|i: int| 0 <= i < piece.len() ==> #[trigger] piece[i] != ' ',
    ensures
        text::split_from(cur, piece.push(' ') + tail, ' ')[0] == cur + piece,
    decreases piece.len(),
{
    let rest = piece.push(' ') + tail;
    if piece.len() == 0 {
        assert(rest[0] == ' ');
        assert(cur + piece =~= cur);
    } else {
        assert(rest[0] == piece[0]);
        assert(rest.skip(1) =~= piece.skip(1).push(' ') + tail);
        lemma_first_piece(cur.push(piece[0]), piece.skip(1), tail);
        assert(cur.push(piece[0]) + piece.skip(1) =~= cur + piece);
    }
}

/// The service can be installed exactly where it is not, as far as its state is known; then it
/// can neither be removed, started nor stopped.
pub proof fn law_panel(state: InstalledState)
    ensures
        panel_of(Some(state)).1 <==> state == InstalledState::NotInstalled,
        panel_of(Some(state)).2 <==> state != InstalledState::NotInstalled,
        state == InstalledState::NotInstalled ==> !panel_of(Some(state)).3 && !panel_of(
            Some(state),
        ).4,
{
}

/// The first choice is to listen everywhere; then each address of the family for others follows with
/// the name of its interface, in order.
pub proof fn law_listen_choices(ifaces: Seq<Interface>, v6: bool)
    ensures
        listen_choices(ifaces, v6) == seq![
            if v6 {
                "All interfaces ([::])"@
            } else {
                "All interfaces (0.0.0.0)"@
            },
        ] + ifaces.filter(
            |i: Interface|
                !i.loopback && i.v6 == v6 && (v6 ==> !"fe80:"@.is_prefix_of(i.address@)),
        ).map_values(|i: Interface| i.address@ + " ("@ + i.name@ + ")"@),
    decreases ifaces.len(),
{
    reveal(Seq::filter);
    let p = |i: Interface|
        !i.loopback && i.v6 == v6 && (v6 ==> !"fe80:"@.is_prefix_of(i.address@));
    let f = |i: Interface| i.address@ + " ("@ + i.name@ + ")"@;
    let all = seq![
        if v6 {
            "All interfaces ([::])"@
        } else {
            "All interfaces (0.0.0.0)"@
        },
    ];
    if ifaces.len() > 0 {
        let front = ifaces.drop_last();
        law_listen_choices(front, v6);
        if p(ifaces.last()) {
            assert(ifaces.filter(p).map_values(f) =~= front.filter(p).map_values(f).push(
                f(ifaces.last()),
            ));
        }
        assert(listen_choices(ifaces, v6) =~= all + ifaces.filter(p).map_values(f));
    } else {
        assert(listen_choices(ifaces, v6) =~= all + ifaces.filter(p).map_values(f));
    }
}

/// The choice that is selected for an address is the first that starts with it.
pub proof fn law_first_choice(choices: Seq<Seq<char>>, address: Seq<char>, k: int)
    requires
        0 <= k < choices.len(),
        address.is_prefix_of(choices[k]),
        forall|j: int| 0 <= j < k ==> !address.is_prefix_of(#[trigger] choices[j]),
    ensures
        choice_of(choices, address) == Some(k),
    decreases choices.len(),
{
    if k > 0 {
        assert(!address.is_prefix_of(choices[0]));
        let rest = choices.skip(1);
        assert(rest[k - 1] == choices[k]);
        assert forall|j: int| 0 <= j < k - 1 implies !address.is_prefix_of(#[trigger] rest[j]) by {
            assert(rest[j] == choices[j + 1]);
        }
        law_first_choice(rest, address, k - 1);
    }
}

/// Keys are shown without their prefix, one after the other with a plus between them.
pub proof fn law_release_text(keys: Seq<Seq<char>>, k: Seq<char>)
    ensures
        release_text(seq![k]) == "Current: "@ + key_text(k),
        keys.len() > 0 ==> release_text(keys.push(k)) == release_text(keys) + " + "@ + key_text(k),
{
    let t = key_texts(keys);
    text::law_join(t, key_text(k), " + "@);
    assert(key_texts(keys.push(k)) =~= t.push(key_text(k)));
    assert(key_texts(seq![k]) =~= seq![key_text(k)]);
    if keys.len() > 0 {
        assert(release_text(keys.push(k)) =~= release_text(keys) + " + "@ + key_text(k));
    }
}

/// A key is shown as its name behind `Key`; sides are abbreviated, and a name without sides stays.
pub proof fn law_key_text(name: Seq<char>)
    requires
        forall|i: int| 0 <= i < name.len() ==> !"Left"@.is_prefix_of(#[trigger] name.skip(i)),
        forall|i: int| 0 <= i < name.len() ==> !"Right"@.is_prefix_of(#[trigger] name.skip(i)),
    ensures
        key_text("Key"@ + name) == name,
{
    text::law_affixes("Key"@, name, name);
    text::law_nothing_to_replace(name, "Left"@, "L-"@);
    text::law_nothing_to_replace(name, "Right"@, "R-"@);
}

/// A service that runs, or is about to, can be stopped; one that is stopped, or is about to be, can be
/// started; where nothing is known everything can be tried.
pub proof fn law_panel_start_stop()
    ensures
        panel_of(Some(InstalledState::Running)).4 && !panel_of(Some(InstalledState::Running)).3,
        panel_of(Some(InstalledState::StartPending)).4 && !panel_of(
            Some(InstalledState::StartPending),
        ).3,
        panel_of(Some(InstalledState::Stopped)).3 && !panel_of(Some(InstalledState::Stopped)).4,
        panel_of(Some(InstalledState::StopPending)).3 && !panel_of(
            Some(InstalledState::StopPending),
        ).4,
        panel_of(None).1 && panel_of(None).2 && panel_of(None).3 && panel_of(None).4,
{
}

} // verus!
