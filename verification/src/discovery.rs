//! Finding other devices on the network, and being found.
use crate::ipc::{DiscoveredDevice, FrontendEvent, FrontendEventView, Position, DEFAULT_PORT};
use crate::net::IpAddr;
use crate::{collections, ipc, text};
use vstd::prelude::*;

verus! {

/// Removals of a device that was found more recently than this are taken for spurious, in
/// nanoseconds.
pub const SPURIOUS_REMOVAL: u64 = 10_000_000_000;

/// The service type that is announced and browsed for.
pub open spec fn service_type() -> Seq<char> {
    "_lan-mouse._udp.local."@
}

// ----- announcing -----------------------------------------------------------

/// A property of an announcement.
#[derive(Debug)]
pub struct Property {
    /// Key.
    pub key: String,
    /// Value.
    pub value: String,
}

/// What is announced of this device.
#[derive(Debug)]
pub struct Advertisement {
    /// Service type.
    pub service_type: String,
    /// Name of the instance.
    pub instance: String,
    /// Name of the host.
    pub host: String,
    /// Port of the input channel.
    pub port: u16,
    /// Properties.
    pub properties: Vec<Property>,
}

/// The keys and values of a list of properties.
pub open spec fn property_pairs(v: Seq<Property>) -> Seq<(Seq<char>, Seq<char>)> {
    Seq::new(v.len(), |i: int| (v[i].key@, v[i].value@))
}

/// What is announced of a device with a hostname, a port and a fingerprint.
pub fn start_advertising(hostname: &str, port: u16, fingerprint: &str) -> (r: Advertisement)
    ensures
        r.service_type@ == service_type(),
        r.instance@ == hostname@,
        r.host@ == hostname@ + ".local."@,
        r.port == port,
        property_pairs(r.properties@) == seq![
            ("fingerprint"@, fingerprint@),
            ("hostname"@, hostname@),
            ("port"@, text::dec(port as nat)),
        ],
{
    let mut properties: Vec<Property> = Vec::new();
    properties.push(
        Property { key: "fingerprint".to_owned(), value: fingerprint.to_owned() },
    );
    properties.push(Property { key: "hostname".to_owned(), value: hostname.to_owned() });
    properties.push(Property { key: "port".to_owned(), value: text::dec_string(port as u64) });
    assert(property_pairs(properties@) =~= seq![
        ("fingerprint"@, fingerprint@),
        ("hostname"@, hostname@),
        ("port"@, text::dec(port as nat)),
    ]);
    Advertisement {
        service_type: "_lan-mouse._udp.local.".to_owned(),
        instance: hostname.to_owned(),
        host: text::concat2(hostname, ".local."),
        port,
        properties,
    }
}

// ----- mode -----------------------------------------------------------------

/// What is to be done to switch the mode.
#[derive(Clone, Copy, PartialEq, Eq, Structural, Debug)]
pub enum ModeAction {
    /// Take the announcement back.
    StopAdvertising,
    /// Stop looking for devices.
    StopBrowsing,
    /// Announce this device.
    StartAdvertising,
    /// Look for devices.
    StartBrowsing,
}

/// Whether this device is announced and looks for others. Either both or neither is meant to
/// be the case.
#[derive(Clone, Copy, PartialEq, Eq, Structural, Debug)]
pub struct DiscoveryMode {
    /// Whether the device is meant to be found.
    pub discoverable: bool,
    /// Whether the device is announced.
    pub advertising: bool,
    /// Whether the device looks for others.
    pub browsing: bool,
}

/// What stops everything that runs.
pub open spec fn stop_actions(m: DiscoveryMode) -> Seq<ModeAction> {
    (if m.advertising {
        seq![ModeAction::StopAdvertising]
    } else {
        Seq::empty()
    }) + (if m.browsing {
        seq![ModeAction::StopBrowsing]
    } else {
        Seq::empty()
    })
}

/// What brings the mode about: everything is stopped, and both parts are started where the
/// device is meant to be found.
pub open spec fn mode_actions(m: DiscoveryMode) -> Seq<ModeAction> {
    stop_actions(m) + (if m.discoverable {
        seq![ModeAction::StartAdvertising, ModeAction::StartBrowsing]
    } else {
        Seq::empty()
    })
}

impl DiscoveryMode {
    /// The mode before anything was started.
    pub fn new(discoverable: bool) -> (r: DiscoveryMode)
        ensures
            r == (DiscoveryMode { discoverable, advertising: false, browsing: false }),
    {
        DiscoveryMode { discoverable, advertising: false, browsing: false }
    }

    /// Whether the device is meant to be found.
    pub fn is_discoverable(&self) -> (r: bool)
        ensures
            r == self.discoverable,
    {
        self.discoverable
    }

    /// Stops everything.
    pub fn stop_all(&mut self) -> (r: Vec<ModeAction>)
        ensures
            r@ == stop_actions(*old(self)),
            *final(self) == (DiscoveryMode {
                discoverable: old(self).discoverable,
                advertising: false,
                browsing: false,
            }),
    {
        let mut r: Vec<ModeAction> = Vec::new();
        if self.advertising {
            r.push(ModeAction::StopAdvertising);
        }
        if self.browsing {
            r.push(ModeAction::StopBrowsing);
        }
        self.advertising = false;
        self.browsing = false;
        assert(r@ =~= stop_actions(*old(self)));
        r
    }

    /// Brings the mode about. The caller carries the actions out in order, stops at the first
    /// that fails, and reports what was started.
    pub fn apply_mode(&mut self) -> (r: Vec<ModeAction>)
        ensures
            r@ == mode_actions(*old(self)),
            *final(self) == (DiscoveryMode {
                discoverable: old(self).discoverable,
                advertising: false,
                browsing: false,
            }),
    {
        let mut r: Vec<ModeAction> = self.stop_all();
        if self.discoverable {
            r.push(ModeAction::StartAdvertising);
            r.push(ModeAction::StartBrowsing);
        }
        assert(r@ =~= mode_actions(*old(self)));
        r
    }

    /// Switches the mode; nothing is done where it is already so.
    pub fn set_discoverable(&mut self, discoverable: bool) -> (r: Vec<ModeAction>)
        ensures
            old(self).discoverable == discoverable ==> r@.len() == 0 && *final(self) == *old(
                self,
            ),
            old(self).discoverable != discoverable ==> {
                &&& r@ == mode_actions((DiscoveryMode { discoverable, ..*old(self) }))
                &&& *final(self) == (DiscoveryMode {
                    discoverable,
                    advertising: false,
                    browsing: false,
                })
            },
    {
        if self.discoverable == discoverable {
            return Vec::new();
        }
        self.discoverable = discoverable;
        self.apply_mode()
    }

    /// The announcement is out.
    pub fn advertising_started(&mut self)
        ensures
            *final(self) == (DiscoveryMode { advertising: true, ..*old(self) }),
    {
        self.advertising = true;
    }

    /// The search runs.
    pub fn browsing_started(&mut self)
        ensures
            *final(self) == (DiscoveryMode { browsing: true, ..*old(self) }),
    {
        self.browsing = true;
    }
}

/// A device that is not meant to be found is silent: what runs is stopped, nothing is started.
pub proof fn law_silent_when_off(m: DiscoveryMode, k: int)
    requires
        !m.discoverable,
        0 <= k < mode_actions(m).len(),
    ensures
        mode_actions(m)[k] == ModeAction::StopAdvertising || mode_actions(m)[k]
            == ModeAction::StopBrowsing,
{
}

// ----- browsing -------------------------------------------------------------

/// What was resolved of a service; properties that it does not have are missing.
#[derive(Debug)]
pub struct ResolvedService {
    /// Property `hostname`.
    pub hostname: Option<String>,
    /// Property `fingerprint`.
    pub fingerprint: Option<String>,
    /// Property `port`.
    pub port: Option<String>,
    /// Property `position`.
    pub position: Option<String>,
    /// Addresses.
    pub addrs: Vec<IpAddr>,
}

/// Contents of a [`ResolvedService`].
#[verifier::ext_equal]
pub struct ResolvedServiceView {
    /// See [`ResolvedService::hostname`].
    pub hostname: Option<Seq<char>>,
    /// See [`ResolvedService::fingerprint`].
    pub fingerprint: Option<Seq<char>>,
    /// See [`ResolvedService::port`].
    pub port: Option<Seq<char>>,
    /// See [`ResolvedService::position`].
    pub position: Option<Seq<char>>,
    /// See [`ResolvedService::addrs`].
    pub addrs: Seq<IpAddr>,
}

impl View for ResolvedService {
    type V = ResolvedServiceView;

    open spec fn view(&self) -> ResolvedServiceView {
        ResolvedServiceView {
            hostname: text::opt_view(self.hostname),
            fingerprint: text::opt_view(self.fingerprint),
            port: text::opt_view(self.port),
            position: text::opt_view(self.position),
            addrs: self.addrs@,
        }
    }
}

/// What the search reports.
#[derive(Debug)]
pub enum BrowseEvent {
    /// A service was resolved.
    Resolved(ResolvedService),
    /// A service is gone; holds its full name.
    Removed(String),
    /// Anything else.
    Other,
}

/// Contents of a [`BrowseEvent`].
#[verifier::ext_equal]
pub enum BrowseEventView {
    /// See [`BrowseEvent::Resolved`].
    Resolved(ResolvedServiceView),
    /// See [`BrowseEvent::Removed`].
    Removed(Seq<char>),
    /// See [`BrowseEvent::Other`].
    Other,
}

impl View for BrowseEvent {
    type V = BrowseEventView;

    open spec fn view(&self) -> BrowseEventView {
        match self {
            BrowseEvent::Resolved(r) => BrowseEventView::Resolved(r@),
            BrowseEvent::Removed(n) => BrowseEventView::Removed(n@),
            BrowseEvent::Other => BrowseEventView::Other,
        }
    }
}

/// A device that has been found.
#[derive(Debug)]
pub struct KnownDevice {
    /// Hostname.
    pub hostname: String,
    /// When it was found, in nanoseconds.
    pub found_at: u64,
}

/// Contents of a [`KnownDevice`].
#[verifier::ext_equal]
pub struct KnownDeviceView {
    /// See [`KnownDevice::hostname`].
    pub hostname: Seq<char>,
    /// See [`KnownDevice::found_at`].
    pub found_at: u64,
}

/// The contents of a list of known devices.
pub open spec fn known_views(v: Seq<KnownDevice>) -> Seq<KnownDeviceView> {
    Seq::new(
        v.len(),
        |i: int| KnownDeviceView { hostname: v[i].hostname@, found_at: v[i].found_at },
    )
}

/// State of the search.
#[verifier::ext_equal]
pub struct BrowserView {
    /// Hostname of this device.
    pub own_hostname: Seq<char>,
    /// Devices that have been found.
    pub known: Seq<KnownDeviceView>,
}

/// Whether a known device has a hostname.
pub open spec fn known_as(hostname: Seq<char>) -> spec_fn(KnownDeviceView) -> bool {
    |d: KnownDeviceView| d.hostname == hostname
}

/// The text, or the empty text where it is missing.
pub open spec fn or_empty(t: Option<Seq<char>>) -> Seq<char> {
    match t {
        Some(t) => t,
        None => Seq::empty(),
    }
}

/// The announced port; the default one where it is missing or no port.
pub open spec fn announced_port(t: Option<Seq<char>>) -> u16 {
    match t {
        Some(t) => match text::parsed_decimal(t, 65535) {
            Some(n) => n as u16,
            None => DEFAULT_PORT,
        },
        None => DEFAULT_PORT,
    }
}

/// The suggested position: opposite to the announced one, which is the left where it is missing
/// or no position.
pub open spec fn suggested_position(t: Option<Seq<char>>) -> Position {
    match ipc::position_named(or_empty(t)) {
        Some(p) => ipc::opposite_of(p),
        None => ipc::opposite_of(Position::Left),
    }
}

/// A service is resolved: another device with a fingerprint, which is not known yet, is
/// reported.
pub open spec fn service_resolved(s: BrowserView, r: ResolvedServiceView, now: u64) -> (
    BrowserView,
    Option<FrontendEventView>,
) {
    let hostname = or_empty(r.hostname);
    let fingerprint = or_empty(r.fingerprint);
    if hostname == s.own_hostname || collections::first_where(
        s.known,
        known_as(hostname),
    ) is Some || fingerprint.len() == 0 {
        (s, None)
    } else {
        (
            BrowserView { known: s.known.push(KnownDeviceView { hostname, found_at: now }), ..s },
            Some(
                FrontendEventView::DiscoveredDevice(
                    ipc::DiscoveredDeviceView {
                        hostname,
                        addrs: r.addrs,
                        port: announced_port(r.port),
                        fingerprint,
                        position: suggested_position(r.position),
                    },
                ),
            ),
        )
    }
}

/// The hostname in the full name of a service.
pub open spec fn hostname_in(fullname: Seq<char>) -> Seq<char> {
    match text::without_suffix(fullname, "."@ + service_type()) {
        Some(h) => h,
        None => fullname,
    }
}

/// A service is gone: a known device that was not found just now is reported as lost.
pub open spec fn service_removed(s: BrowserView, fullname: Seq<char>, now: u64) -> (
    BrowserView,
    Option<FrontendEventView>,
) {
    let hostname = hostname_in(fullname);
    if hostname == s.own_hostname {
        (s, None)
    } else {
        match collections::first_where(s.known, known_as(hostname)) {
            Some(d) if now - d.found_at >= SPURIOUS_REMOVAL => (
                BrowserView {
                    known: collections::without_first(s.known, known_as(hostname)),
                    ..s
                },
                Some(FrontendEventView::DeviceLost { hostname }),
            ),
            _ => (s, None),
        }
    }
}

/// The search reports.
pub open spec fn browsed(s: BrowserView, e: BrowseEventView, now: u64) -> (
    BrowserView,
    Option<FrontendEventView>,
) {
    match e {
        BrowseEventView::Resolved(r) => service_resolved(s, r, now),
        BrowseEventView::Removed(n) => service_removed(s, n, now),
        BrowseEventView::Other => (s, None),
    }
}

/// The contents of an optional event.
pub open spec fn opt_event_view(e: Option<FrontendEvent>) -> Option<FrontendEventView> {
    match e {
        Some(e) => Some(e@),
        None => None,
    }
}

/// The search for other devices.
#[derive(Debug)]
pub struct Browser {
    own_hostname: String,
    known_devices: Vec<KnownDevice>,
}

impl View for Browser {
    type V = BrowserView;

    closed spec fn view(&self) -> BrowserView {
        BrowserView {
            own_hostname: self.own_hostname@,
            known: known_views(self.known_devices@),
        }
    }
}

fn text_or_empty(t: &Option<String>) -> (r: String)
    ensures
        r@ == or_empty(text::opt_view(*t)),
{
    match t {
        Some(t) => t.clone(),
        None => {
            let r: String = String::new();
            assert(r@ =~= Seq::empty());
            r
        },
    }
}

impl Browser {
    /// A search that has found nothing.
    pub fn new(own_hostname: String) -> (r: Browser)
        ensures
            r@ == (BrowserView { own_hostname: own_hostname@, known: Seq::empty() }),
    {
        let r: Browser = Browser { own_hostname, known_devices: Vec::new() };
        assert(r@.known =~= Seq::empty());
        r
    }

    fn find(&self, hostname: &str) -> (r: Option<usize>)
        ensures
            match r {
                Some(i) => {
                    &&& i < self.known_devices@.len()
                    &&& collections::first_where(self@.known, known_as(hostname@)) == Some(
                        self@.known[i as int],
                    )
                    &&& collections::index_where(self@.known, known_as(hostname@)) == i
                },
                None => collections::first_where(self@.known, known_as(hostname@)) is None,
            },
    {
        let n: usize = self.known_devices.len();
        let ghost p = known_as(hostname@);
        let ghost all = self@.known;
        let mut i: usize = 0;
        while i < n
            invariant
                n == self.known_devices@.len() == all.len(),
                all == known_views(self.known_devices@),
                i <= n,
                p == known_as(hostname@),
                forall|j: int| 0 <= j < i ==> !p(#[trigger] all[j]),
            decreases n - i,
        {
            if text::str_eq(self.known_devices[i].hostname.as_str(), hostname) {
                proof {
                    collections::lemma_first_at(all, p, i as int);
                    collections::lemma_index_at(all, p, i as int);
                }
                return Some(i);
            }
            i += 1;
        }
        proof {
            collections::lemma_first_none(all, p);
        }
        None
    }

    fn resolved(&mut self, r: ResolvedService, now: u64) -> (e: Option<FrontendEvent>)
        ensures
            (final(self)@, opt_event_view(e)) == service_resolved(old(self)@, r@, now),
    {
        let hostname: String = text_or_empty(&r.hostname);
        if text::str_eq(hostname.as_str(), self.own_hostname.as_str()) {
            return None;
        }
        if self.find(hostname.as_str()).is_some() {
            return None;
        }
        let fingerprint: String = text_or_empty(&r.fingerprint);
        let port: u16 = match &r.port {
            Some(p) => match text::parse_decimal(p.as_str(), 65535) {
                Some(n) => n as u16,
                None => DEFAULT_PORT,
            },
            None => DEFAULT_PORT,
        };
        let named: String = text_or_empty(&r.position);
        let position: Position = match Position::parse(named.as_str()) {
            Ok(p) => p.opposite(),
            Err(_) => Position::Left.opposite(),
        };
        if text::chars_of(fingerprint.as_str()).len() == 0 {
            return None;
        }
        self.known_devices.push(KnownDevice { hostname: hostname.clone(), found_at: now });
        proof {
            let d = KnownDeviceView { hostname: hostname@, found_at: now };
            assert(self@.known =~= old(self)@.known.push(d));
            assert(self@ =~= BrowserView { known: old(self)@.known.push(d), ..old(self)@ });
        }
        Some(
            FrontendEvent::DiscoveredDevice(
                DiscoveredDevice { hostname, addrs: r.addrs, port, fingerprint, position },
            ),
        )
    }

    fn removed(&mut self, fullname: String, now: u64) -> (e: Option<FrontendEvent>)
        ensures
            (final(self)@, opt_event_view(e)) == service_removed(old(self)@, fullname@, now),
    {
        let suffix: String = text::concat2(".", "_lan-mouse._udp.local.");
        let hostname: String = match text::strip_suffix(fullname.as_str(), suffix.as_str()) {
            Some(h) => h,
            None => fullname,
        };
        if text::str_eq(hostname.as_str(), self.own_hostname.as_str()) {
            return None;
        }
        match self.find(hostname.as_str()) {
            Some(i) => {
                let found_at: u64 = self.known_devices[i].found_at;
                if now.saturating_sub(found_at) < SPURIOUS_REMOVAL {
                    return None;
                }
                self.known_devices.remove(i);
                proof {
                    let k = collections::without_first(old(self)@.known, known_as(hostname@));
                    assert(self@.known =~= k);
                    assert(self@ =~= BrowserView { known: k, ..old(self)@ });
                }
                Some(FrontendEvent::DeviceLost { hostname })
            },
            None => None,
        }
    }

    /// Takes a report of the search at a time in nanoseconds; says what the frontends are told.
    pub fn step(&mut self, event: BrowseEvent, now: u64) -> (e: Option<FrontendEvent>)
        ensures
            (final(self)@, opt_event_view(e)) == browsed(old(self)@, event@, now),
    {
        match event {
            BrowseEvent::Resolved(r) => self.resolved(r, now),
            BrowseEvent::Removed(n) => self.removed(n, now),
            BrowseEvent::Other => None,
        }
    }
}

// ----- laws -----------------------------------------------------------------

/// This device never reports itself, neither as found nor as lost.
pub proof fn law_own_device_not_reported(s: BrowserView, e: BrowseEventView, now: u64)
    ensures
        match browsed(s, e, now).1 {
            Some(FrontendEventView::DiscoveredDevice(d)) => d.hostname != s.own_hostname,
            Some(FrontendEventView::DeviceLost { hostname }) => hostname != s.own_hostname,
            Some(_) => false,
            None => true,
        },
{
}

/// A device is reported once: resolved again, it is not reported again.
pub proof fn law_device_reported_once(
    s: BrowserView,
    r: ResolvedServiceView,
    now: u64,
    later: u64,
)
    ensures
        service_resolved(service_resolved(s, r, now).0, r, later).1 is None,
{
    let t = service_resolved(s, r, now).0;
    let p = known_as(or_empty(r.hostname));
    if service_resolved(s, r, now).1 is Some {
        let n = s.known.len() as int;
        collections::lemma_first_is(s.known, p);
        assert forall|j: int| 0 <= j < n implies !p(#[trigger] t.known[j]) by {
            assert(t.known[j] == s.known[j]);
        }
        assert(p(t.known[n]));
        collections::lemma_first_at(t.known, p, n);
    }
}

/// A removal within ten seconds of the discovery is ignored; a later one is reported, and only
/// where the device was known.
pub proof fn law_spurious_removal_ignored(s: BrowserView, fullname: Seq<char>, now: u64)
    ensures
        ({
            let h = hostname_in(fullname);
            let known = collections::first_where(s.known, known_as(h));
            let e = service_removed(s, fullname, now).1;
            &&& known is None ==> e is None
            &&& known is Some && now - known->0.found_at < SPURIOUS_REMOVAL ==> e is None
            &&& known is Some && h != s.own_hostname && now - known->0.found_at
                >= SPURIOUS_REMOVAL ==> e == Some(FrontendEventView::DeviceLost { hostname: h })
        }),
{
}

/// What a device announces is what others read: its own port comes back.
pub proof fn law_announced_port_roundtrip(port: u16)
    ensures
        announced_port(Some(text::dec(port as nat))) == port,
{
    text::law_parse_decimal_inverts_dec(port as nat, 65535);
}

/// The name that an announcement is removed under carries the hostname.
pub proof fn law_removed_hostname(hostname: Seq<char>)
    ensures
        hostname_in(hostname + ("."@ + service_type())) == hostname,
{
    let suffix = "."@ + service_type();
    let full = hostname + suffix;
    assert(full.skip(hostname.len() as int) =~= suffix);
    assert(full.subrange(full.len() - suffix.len(), full.len() as int) =~= suffix);
    assert(full.take(full.len() - suffix.len()) =~= hostname);
}

/// Another device than this one, which is not known yet and has a fingerprint, is reported at once
/// with everything that was resolved of it: its hostname and fingerprint, all of its addresses in
/// order, the port that it announces, and the side opposite to the one that it announces. It is
/// known from then on.
pub proof fn law_found_device_is_reported(
    s: BrowserView,
    r: ResolvedServiceView,
    hostname: Seq<char>,
    fingerprint: Seq<char>,
    port: u16,
    now: u64,
)
    requires
        r.hostname == Some(hostname) || (r.hostname is None && hostname == Seq::<char>::empty()),
        r.fingerprint == Some(fingerprint),
        hostname != s.own_hostname,
        forall|i: int| 0 <= i < s.known.len() ==> (#[trigger] s.known[i]).hostname != hostname,
        fingerprint.len() > 0,
    ensures
        ({
            let (t, e) = browsed(s, BrowseEventView::Resolved(r), now);
            &&& t.own_hostname == s.own_hostname
            &&& t.known == s.known.push(KnownDeviceView { hostname, found_at: now })
            &&& e matches Some(FrontendEventView::DiscoveredDevice(d)) && {
                &&& d.hostname == hostname
                &&& d.fingerprint == fingerprint
                &&& d.addrs == r.addrs
                &&& r.port == Some(text::dec(port as nat)) ==> d.port == port
                &&& r.port is None ==> d.port == 4242
                &&& r.position == Some("right"@) ==> d.position == Position::Left
                &&& r.position == Some("top"@) ==> d.position == Position::Bottom
                &&& r.position == Some("bottom"@) ==> d.position == Position::Top
                &&& r.position != Some("right"@) && r.position != Some("top"@) && r.position
                    != Some("bottom"@) ==> d.position == Position::Right
            }
        }),
{
    reveal_strlit("left");
    reveal_strlit("right");
    reveal_strlit("top");
    reveal_strlit("bottom");
    assert("left"@.len() == 4 && "right"@.len() == 5 && "top"@.len() == 3 && "bottom"@.len() == 6);
    law_announced_port_roundtrip(port);
    let p = known_as(hostname);
    assert forall|i: int| 0 <= i < s.known.len() implies !p(#[trigger] s.known[i]) by {}
    collections::lemma_first_none(s.known, p);
    assert(or_empty(r.hostname) == hostname && or_empty(r.fingerprint) == fingerprint);
    match r.position {
        Some(t) => assert(or_empty(r.position) == t),
        None => assert(or_empty(r.position).len() == 0),
    }
}

/// A device that announces no port, or something that is no number below 65536, is reported with
/// the default port.
pub proof fn law_default_port(t: Seq<char>)
    requires
        forall|n: nat| n <= 65535 ==> text::parsed_decimal(t, 65535) != Some(n),
    ensures
        announced_port(None) == 4242,
        announced_port(Some(t)) == 4242,
{
    if let Some(n) = text::parsed_decimal(t, 65535) {
        assert(n <= 65535);
    }
}

/// Nothing is reported, and nothing becomes known, of this device itself, of a known device, and
/// of one without a fingerprint.
pub proof fn law_not_reported(s: BrowserView, r: ResolvedServiceView, i: int, now: u64)
    requires
        ({
            ||| r.hostname == Some(s.own_hostname)
            ||| 0 <= i < s.known.len() && r.hostname == Some(s.known[i].hostname)
            ||| r.fingerprint is None
            ||| r.fingerprint->0.len() == 0
        }),
    ensures
        browsed(s, BrowseEventView::Resolved(r), now) == (s, None::<FrontendEventView>),
{
    if 0 <= i < s.known.len() && r.hostname == Some(s.known[i].hostname) {
        let p = known_as(s.known[i].hostname);
        assert(p(s.known[i]));
        collections::lemma_first_is(s.known, p);
    }
}

/// A known device that leaves ten seconds or more after it was found is reported as lost under its
/// hostname, and forgotten; one that leaves earlier stays known, and nothing is reported. Nothing
/// happens for a device that is not known.
pub proof fn law_lost_device_is_reported(
    s: BrowserView,
    hostname: Seq<char>,
    i: int,
    unknown: Seq<char>,
    now: u64,
)
    requires
        0 <= i < s.known.len(),
        s.known[i].hostname == hostname,
        forall|j: int| 0 <= j < i ==> (#[trigger] s.known[j]).hostname != hostname,
        hostname != s.own_hostname,
        forall|j: int| 0 <= j < s.known.len() ==> (#[trigger] s.known[j]).hostname != unknown,
    ensures
        ({
            let name = hostname + "._lan-mouse._udp.local."@;
            let (t, e) = browsed(s, BrowseEventView::Removed(name), now);
            if now >= s.known[i].found_at + 10_000_000_000 {
                &&& t == BrowserView { own_hostname: s.own_hostname, known: s.known.remove(i) }
                &&& e == Some(FrontendEventView::DeviceLost { hostname })
            } else {
                t == s && e is None
            }
        }),
        browsed(s, BrowseEventView::Removed(unknown + "._lan-mouse._udp.local."@), now) == (
            s,
            None::<FrontendEventView>,
        ),
        browsed(s, BrowseEventView::Other, now) == (s, None::<FrontendEventView>),
{
    reveal_strlit("._lan-mouse._udp.local.");
    reveal_strlit("_lan-mouse._udp.local.");
    reveal_strlit(".");
    assert("."@ + service_type() =~= "._lan-mouse._udp.local."@);
    law_removed_hostname(hostname);
    law_removed_hostname(unknown);
    let p = known_as(hostname);
    assert forall|j: int| 0 <= j < i implies !p(#[trigger] s.known[j]) by {}
    collections::lemma_first_at(s.known, p, i);
    collections::lemma_index_at(s.known, p, i);
    let q = known_as(unknown);
    assert forall|j: int| 0 <= j < s.known.len() implies !q(#[trigger] s.known[j]) by {}
    collections::lemma_first_none(s.known, q);
}

/// Switching the mode on starts both halves and switching it off starts none; whatever runs is
/// stopped before.
pub proof fn law_mode_actions(m: DiscoveryMode)
    ensures
        mode_actions(m).contains(ModeAction::StartAdvertising) == m.discoverable,
        mode_actions(m).contains(ModeAction::StartBrowsing) == m.discoverable,
        mode_actions(m).contains(ModeAction::StopAdvertising) == m.advertising,
        mode_actions(m).contains(ModeAction::StopBrowsing) == m.browsing,
        forall|a: int, b: int|
            #![trigger mode_actions(m)[a], mode_actions(m)[b]]
            0 <= a < mode_actions(m).len() && 0 <= b < mode_actions(m).len() && (
            mode_actions(m)[a] == ModeAction::StopAdvertising || mode_actions(m)[a]
                == ModeAction::StopBrowsing) && (mode_actions(m)[b]
                == ModeAction::StartAdvertising || mode_actions(m)[b]
                == ModeAction::StartBrowsing) ==> a < b,
{
    let s = stop_actions(m);
    let r = mode_actions(m);
    if m.advertising {
        assert(r[0] == ModeAction::StopAdvertising);
    }
    if m.browsing {
        assert(r[s.len() - 1] == ModeAction::StopBrowsing);
    }
    if m.discoverable {
        assert(r[s.len() as int] == ModeAction::StartAdvertising);
        assert(r[s.len() as int + 1] == ModeAction::StartBrowsing);
    }
}

} // verus!
