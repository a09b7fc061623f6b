//! The main window.
use crate::ipc::DEFAULT_PORT;
use crate::text;
use vstd::prelude::*;

verus! {

/// A network interface of this host.
#[derive(Debug)]
pub struct Interface {
    /// Name.
    pub name: String,
    /// Whether it only reaches this host.
    pub loopback: bool,
    /// Whether its address is of the newer family.
    pub v6: bool,
    /// Its address as text.
    pub address: String,
}

/// Whether an interface has an address of the older family for others.
pub open spec fn offers_v4(i: Interface) -> bool {
    !i.loopback && !i.v6
}

/// Whether an interface has an address of the newer family for others; link-local ones are left
/// out.
pub open spec fn offers_v6(i: Interface) -> bool {
    !i.loopback && i.v6 && !"fe80:"@.is_prefix_of(i.address@)
}

/// The addresses of one family for others, in order.
pub open spec fn offered(ifaces: Seq<Interface>, v6: bool) -> Seq<Seq<char>>
    decreases ifaces.len(),
{
    if ifaces.len() == 0 {
        Seq::empty()
    } else {
        let front = offered(ifaces.drop_last(), v6);
        let last = ifaces.last();
        if (v6 && offers_v6(last)) || (!v6 && offers_v4(last)) {
            front.push(last.address@)
        } else {
            front
        }
    }
}

/// Whether an interface has an address of a family for others.
pub fn offers(i: &Interface, v6: bool) -> (r: bool)
    ensures
        r == (if v6 {
            offers_v6(*i)
        } else {
            offers_v4(*i)
        }),
{
    if i.loopback || i.v6 != v6 {
        return false;
    }
    !v6 || text::strip_prefix(i.address.as_str(), "fe80:").is_none()
}

fn addresses(ifaces: &Vec<Interface>, v6: bool) -> (r: Vec<String>)
    ensures
        text::views(r@) == offered(ifaces@, v6),
{
    let mut r: Vec<String> = Vec::new();
    assert(text::views(r@) =~= Seq::empty());
    let n: usize = ifaces.len();
    let mut i: usize = 0;
    assert(ifaces@.take(0) =~= Seq::empty());
    while i < n
        invariant
            n == ifaces@.len(),
            i <= n,
            text::views(r@) == offered(ifaces@.take(i as int), v6),
        decreases n - i,
    {
        proof {
            assert(ifaces@.take(i + 1).drop_last() =~= ifaces@.take(i as int));
            assert(ifaces@.take(i + 1).last() == ifaces@[i as int]);
        }
        if offers(&ifaces[i], v6) {
            let a: String = ifaces[i].address.clone();
            proof {
                text::lemma_views_push(r@, a);
            }
            r.push(a);
        }
        i += 1;
    }
    assert(ifaces@.take(n as int) =~= ifaces@);
    r
}

/// The addresses of this host for others, by family.
pub fn get_local_ips(ifaces: &Vec<Interface>) -> (r: (Vec<String>, Vec<String>))
    ensures
        text::views(r.0@) == offered(ifaces@, false),
        text::views(r.1@) == offered(ifaces@, true),
{
    (addresses(ifaces, false), addresses(ifaces, true))
}

// ----- search domain --------------------------------------------------------

/// The domain that a line of the resolver's configuration names; `None` where the line names
/// none.
pub open spec fn line_domain(line: Seq<char>) -> Option<Option<Seq<char>>> {
    let t = text::trim(line);
    match text::without_prefix(t, "search "@) {
        Some(rest) => Some(text::first_word(rest)),
        None => match text::without_prefix(t, "domain "@) {
            Some(rest) => Some(text::first_word(rest)),
            None => None,
        },
    }
}

/// The domain that the first line with one names.
pub open spec fn first_domain(lines: Seq<Seq<char>>) -> Option<Seq<char>>
    decreases lines.len(),
{
    if lines.len() == 0 {
        None
    } else {
        match line_domain(lines[0]) {
            Some(d) => d,
            None => first_domain(lines.skip(1)),
        }
    }
}

/// The search domain in the resolver's configuration.
pub open spec fn search_domain(content: Option<Seq<char>>) -> Option<Seq<char>> {
    match content {
        Some(c) => first_domain(text::split(c, '\n')),
        None => None,
    }
}

fn domain_in(line: &str) -> (r: Option<Option<String>>)
    ensures
        match r {
            Some(d) => line_domain(line@) == Some(text::opt_view(d)),
            None => line_domain(line@) is None,
        },
{
    let t: String = text::trimmed(line);
    match text::strip_prefix(t.as_str(), "search ") {
        Some(rest) => Some(text::first_word_of(rest.as_str())),
        None => match text::strip_prefix(t.as_str(), "domain ") {
            Some(rest) => Some(text::first_word_of(rest.as_str())),
            None => None,
        },
    }
}

/// The search domain in the resolver's configuration, where it could be read.
pub fn get_search_domain(content: &Option<String>) -> (r: Option<String>)
    ensures
        text::opt_view(r) == search_domain(text::opt_view(*content)),
{
    let config: &String = match content {
        Some(c) => c,
        None => {
            return None;
        },
    };
    let chars: Vec<char> = text::chars_of(config.as_str());
    let lines: Vec<String> = text::split_chars(chars.as_slice(), '\n');
    let ghost all = text::views(lines@);
    let n: usize = lines.len();
    let mut i: usize = 0;
    assert(all.skip(0) =~= all);
    while i < n
        invariant
            n == lines@.len() == all.len(),
            all == text::views(lines@),
            i <= n,
            first_domain(all.skip(i as int)) == search_domain(text::opt_view(*content)),
        decreases n - i,
    {
        proof {
            assert(all.skip(i as int)[0] == lines@[i as int]@);
            assert(all.skip(i as int).skip(1) =~= all.skip(i + 1));
        }
        match domain_in(lines[i].as_str()) {
            Some(d) => {
                return d;
            },
            None => {},
        }
        i += 1;
    }
    None
}

// ----- hostname menu --------------------------------------------------------

/// An entry of the menu that copies names and addresses.
#[derive(Debug)]
pub struct CopyItem {
    /// What the user sees.
    pub label: String,
    /// Name of the action.
    pub action: String,
    /// What is copied.
    pub text: String,
}

/// Contents of a [`CopyItem`].
#[verifier::ext_equal]
pub struct CopyItemView {
    /// See [`CopyItem::label`].
    pub label: Seq<char>,
    /// See [`CopyItem::action`].
    pub action: Seq<char>,
    /// See [`CopyItem::text`].
    pub text: Seq<char>,
}

/// The contents of a list of entries.
pub open spec fn item_views(v: Seq<CopyItem>) -> Seq<CopyItemView> {
    Seq::new(
        v.len(),
        |i: int|
            CopyItemView { label: v[i].label@, action: v[i].action@, text: v[i].text@ },
    )
}

/// One entry where there is something to copy.
pub open spec fn item_if(
    label: Seq<char>,
    action: Seq<char>,
    text: Option<Seq<char>>,
) -> Seq<CopyItemView> {
    match text {
        Some(text) => seq![CopyItemView { label, action, text }],
        None => Seq::empty(),
    }
}

/// The first of a list of texts.
pub open spec fn first_of(v: Seq<Seq<char>>) -> Option<Seq<char>> {
    if v.len() == 0 {
        None
    } else {
        Some(v[0])
    }
}

/// The full name of this host.
pub open spec fn fqdn(hostname: Option<Seq<char>>, domain: Option<Seq<char>>) -> Option<Seq<char>> {
    match (hostname, domain) {
        (Some(h), Some(d)) => Some(h + "."@ + d),
        _ => None,
    }
}

/// The menu that copies names and addresses.
pub open spec fn copy_items(
    hostname: Option<Seq<char>>,
    domain: Option<Seq<char>>,
    ipv4s: Seq<Seq<char>>,
    ipv6s: Seq<Seq<char>>,
) -> Seq<CopyItemView> {
    item_if("Hostname"@, "copy-hostname"@, hostname) + item_if(
        "Full Hostname (FQDN)"@,
        "copy-fqdn"@,
        fqdn(hostname, domain),
    ) + item_if("IPv4 Address"@, "copy-ipv4"@, first_of(ipv4s)) + item_if(
        "IPv6 Address"@,
        "copy-ipv6"@,
        first_of(ipv6s),
    )
}

/// A line of the tooltip, where there are addresses.
pub open spec fn tooltip_line(head: Seq<char>, ips: Seq<Seq<char>>) -> Seq<Seq<char>> {
    if ips.len() == 0 {
        Seq::empty()
    } else {
        seq![head + text::join(ips, ", "@)]
    }
}

/// The tooltip with the addresses of this host.
pub open spec fn tooltip_of(ipv4s: Seq<Seq<char>>, ipv6s: Seq<Seq<char>>) -> Option<Seq<char>> {
    let lines = tooltip_line("IPv4: "@, ipv4s) + tooltip_line("IPv6: "@, ipv6s);
    if lines.len() == 0 {
        None
    } else {
        Some(text::join(lines, "\n"@))
    }
}

/// What the main window shows of this host.
#[derive(Debug)]
pub struct HostPanel {
    /// Hostname; left as it is where it is missing.
    pub hostname: Option<String>,
    /// Tooltip of the hostname.
    pub tooltip: Option<String>,
    /// Menu that copies names and addresses.
    pub items: Vec<CopyItem>,
}

fn push_item(out: &mut Vec<CopyItem>, label: &str, action: &str, text: Option<String>)
    ensures
        item_views(final(out)@) == item_views(old(out)@) + item_if(
            label@,
            action@,
            text::opt_view(text),
        ),
{
    match text {
        Some(text) => out.push(
            CopyItem { label: label.to_owned(), action: action.to_owned(), text },
        ),
        None => {},
    }
    proof {
        assert(item_views(out@) =~= item_views(old(out)@) + item_if(
            label@,
            action@,
            text::opt_view(text),
        ));
    }
}

fn first_string(v: &Vec<String>) -> (r: Option<String>)
    ensures
        text::opt_view(r) == first_of(text::views(v@)),
{
    if v.len() == 0 {
        None
    } else {
        Some(v[0].clone())
    }
}

fn push_line(out: &mut Vec<String>, head: &str, ips: &Vec<String>)
    ensures
        text::views(final(out)@) == text::views(old(out)@) + tooltip_line(
            head@,
            text::views(ips@),
        ),
{
    if ips.len() > 0 {
        let list: String = text::join_strings(ips, ", ");
        let line: String = text::concat2(head, list.as_str());
        proof {
            text::lemma_views_push(out@, line);
        }
        out.push(line);
    }
    proof {
        assert(text::views(out@) =~= text::views(old(out)@) + tooltip_line(
            head@,
            text::views(ips@),
        ));
    }
}

/// The tooltip with the addresses of this host.
pub fn hostname_tooltip(ipv4s: &Vec<String>, ipv6s: &Vec<String>) -> (r: Option<String>)
    ensures
        text::opt_view(r) == tooltip_of(text::views(ipv4s@), text::views(ipv6s@)),
{
    let mut lines: Vec<String> = Vec::new();
    assert(text::views(lines@) =~= Seq::empty());
    push_line(&mut lines, "IPv4: ", ipv4s);
    push_line(&mut lines, "IPv6: ", ipv6s);
    proof {
        assert(text::views(lines@) =~= tooltip_line("IPv4: "@, text::views(ipv4s@))
            + tooltip_line("IPv6: "@, text::views(ipv6s@)));
    }
    if lines.len() == 0 {
        None
    } else {
        Some(text::join_strings(&lines, "\n"))
    }
}

/// What the main window shows of this host when it is made.
pub fn constructed(
    hostname: Option<String>,
    ifaces: &Vec<Interface>,
    resolver_config: &Option<String>,
) -> (r: HostPanel)
    ensures
        text::opt_view(r.hostname) == text::opt_view(hostname),
        text::opt_view(r.tooltip) == tooltip_of(
            offered(ifaces@, false),
            offered(ifaces@, true),
        ),
        item_views(r.items@) == copy_items(
            text::opt_view(hostname),
            search_domain(text::opt_view(*resolver_config)),
            offered(ifaces@, false),
            offered(ifaces@, true),
        ),
{
    let (ipv4s, ipv6s): (Vec<String>, Vec<String>) = get_local_ips(ifaces);
    let tooltip: Option<String> = hostname_tooltip(&ipv4s, &ipv6s);
    let domain: Option<String> = get_search_domain(resolver_config);
    let full: Option<String> = match (&hostname, &domain) {
        (Some(h), Some(d)) => Some(text::concat3(h.as_str(), ".", d.as_str())),
        _ => None,
    };
    let mut items: Vec<CopyItem> = Vec::new();
    assert(item_views(items@) =~= Seq::empty());
    push_item(&mut items, "Hostname", "copy-hostname", text::opt_clone(&hostname));
    push_item(&mut items, "Full Hostname (FQDN)", "copy-fqdn", full);
    push_item(&mut items, "IPv4 Address", "copy-ipv4", first_string(&ipv4s));
    push_item(&mut items, "IPv6 Address", "copy-ipv6", first_string(&ipv6s));
    proof {
        assert(item_views(items@) =~= copy_items(
            text::opt_view(hostname),
            search_domain(text::opt_view(*resolver_config)),
            offered(ifaces@, false),
            offered(ifaces@, true),
        ));
    }
    HostPanel { hostname, tooltip, items }
}

// ----- port -----------------------------------------------------------------

/// What the port entry holds: nothing for the default port.
pub fn port_text(port: u16) -> (r: String)
    ensures
        r@ == (if port == DEFAULT_PORT {
            Seq::empty()
        } else {
            text::dec(port as nat)
        }),
{
    if port == DEFAULT_PORT {
        let r: String = String::new();
        assert(r@ =~= Seq::empty());
        r
    } else {
        text::dec_string(port as u64)
    }
}

// ----- laws -----------------------------------------------------------------

/// Loopback and link-local addresses are never shown.
pub proof fn law_offered(ifaces: Seq<Interface>, v6: bool, i: int)
    requires
        0 <= i < offered(ifaces, v6).len(),
    ensures
        exists|k: int|
            0 <= k < ifaces.len() && (#[trigger] ifaces[k]).address@ == offered(ifaces, v6)[i]
                && !ifaces[k].loopback && ifaces[k].v6 == v6 && (v6 ==> !"fe80:"@.is_prefix_of(
                ifaces[k].address@,
            )),
    decreases ifaces.len(),
{
    let front = ifaces.drop_last();
    if i < offered(front, v6).len() {
        law_offered(front, v6, i);
        let k = choose|k: int|
            0 <= k < front.len() && (#[trigger] front[k]).address@ == offered(front, v6)[i]
                && !front[k].loopback && front[k].v6 == v6 && (v6 ==> !"fe80:"@.is_prefix_of(
                front[k].address@,
            ));
        assert(ifaces[k] == front[k]);
    } else {
        let k = ifaces.len() - 1;
        assert(ifaces[k] == ifaces.last());
    }
}

/// The full name is offered only where both the hostname and the search domain are known.
pub proof fn law_fqdn_needs_both(hostname: Option<Seq<char>>, domain: Option<Seq<char>>)
    ensures
        fqdn(hostname, domain) is Some <==> hostname is Some && domain is Some,
{
}

/// Every address of a family for others is shown, in order, and no other.
pub proof fn law_every_address_is_offered(ifaces: Seq<Interface>, v6: bool)
    ensures
        offered(ifaces, v6) == ifaces.filter(
            |i: Interface|
                !i.loopback && i.v6 == v6 && (v6 ==> !"fe80:"@.is_prefix_of(i.address@)),
        ).map_values(|i: Interface| i.address@),
    decreases ifaces.len(),
{
    reveal(Seq::filter);
    let p = |i: Interface|
        !i.loopback && i.v6 == v6 && (v6 ==> !"fe80:"@.is_prefix_of(i.address@));
    let f = |i: Interface| i.address@;
    if ifaces.len() > 0 {
        let front = ifaces.drop_last();
        law_every_address_is_offered(front, v6);
        if p(ifaces.last()) {
            assert(ifaces.filter(p).map_values(f) =~= front.filter(p).map_values(f).push(
                f(ifaces.last()),
            ));
        }
    } else {
        assert(ifaces.filter(p).map_values(f) =~= offered(ifaces, v6));
    }
}

/// The search domain is the first word behind `search` or `domain` in the first line with either;
/// lines before it name none.
pub proof fn law_search_domain(content: Seq<char>, i: int)
    requires
        0 <= i < text::split(content, '\n').len(),
        forall|k: int|
            0 <= k < i ==> !"search "@.is_prefix_of(
                text::trim(#[trigger] text::split(content, '\n')[k]),
            ) && !"domain "@.is_prefix_of(text::trim(text::split(content, '\n')[k])),
    ensures
        ({
            let t = text::trim(text::split(content, '\n')[i]);
            &&& "search "@.is_prefix_of(t) ==> search_domain(Some(content)) == text::first_word(
                t.skip("search "@.len() as int),
            )
            &&& !"search "@.is_prefix_of(t) && "domain "@.is_prefix_of(t) ==> search_domain(
                Some(content),
            ) == text::first_word(t.skip("domain "@.len() as int))
        }),
        search_domain(None) is None,
{
    lemma_first_domain(text::split(content, '\n'), i);
}

proof fn lemma_first_domain(lines: Seq<Seq<char>>, i: int)
    requires
        0 <= i < lines.len(),
        forall|k: int|
            0 <= k < i ==> !"search "@.is_prefix_of(text::trim(#[trigger] lines[k]))
                && !"domain "@.is_prefix_of(text::trim(lines[k])),
    ensures
        ({
            let t = text::trim(lines[i]);
            &&& "search "@.is_prefix_of(t) ==> first_domain(lines) == text::first_word(
                t.skip("search "@.len() as int),
            )
            &&& !"search "@.is_prefix_of(t) && "domain "@.is_prefix_of(t) ==> first_domain(lines)
                == text::first_word(t.skip("domain "@.len() as int))
        }),
    decreases lines.len(),
{
    if i > 0 {
        assert(!"search "@.is_prefix_of(text::trim(lines[0])));
        let rest = lines.skip(1);
        assert(rest[i - 1] == lines[i]);
        assert forall|k: int| 0 <= k < i - 1 implies !"search "@.is_prefix_of(
            text::trim(#[trigger] rest[k]),
        ) && !"domain "@.is_prefix_of(text::trim(rest[k])) by {
            assert(rest[k] == lines[k + 1]);
        }
        lemma_first_domain(rest, i - 1);
    }
}

/// The full name is the hostname, a dot and the domain.
pub proof fn law_fqdn(hostname: Seq<char>, domain: Seq<char>)
    ensures
        fqdn(Some(hostname), Some(domain)) == Some(hostname + "."@ + domain),
{
}

/// Everything that is known of this host can be copied, the first address of each family among it,
/// and nothing else.
pub proof fn law_copy_items(
    hostname: Option<Seq<char>>,
    domain: Option<Seq<char>>,
    v4: Seq<Seq<char>>,
    v6: Seq<Seq<char>>,
)
    ensures
        ({
            let items = copy_items(hostname, domain, v4, v6);
            &&& items.len() == (if hostname is Some {
                1nat
            } else {
                0
            }) + (if hostname is Some && domain is Some {
                1nat
            } else {
                0
            }) + (if v4.len() > 0 {
                1nat
            } else {
                0
            }) + (if v6.len() > 0 {
                1nat
            } else {
                0
            })
            &&& hostname matches Some(h) ==> items[0] == (CopyItemView {
                label: "Hostname"@,
                action: "copy-hostname"@,
                text: h,
            })
            &&& v6.len() > 0 ==> items.last() == (CopyItemView {
                label: "IPv6 Address"@,
                action: "copy-ipv6"@,
                text: v6[0],
            })
            &&& v4.len() > 0 ==> items.contains(
                CopyItemView { label: "IPv4 Address"@, action: "copy-ipv4"@, text: v4[0] },
            )
            &&& hostname matches Some(h) ==> domain matches Some(d) ==> items[1] == (CopyItemView {
                label: "Full Hostname (FQDN)"@,
                action: "copy-fqdn"@,
                text: h + "."@ + d,
            })
        }),
{
    let items = copy_items(hostname, domain, v4, v6);
    if v4.len() > 0 {
        let k = (if hostname is Some {
            1int
        } else {
            0
        }) + (if hostname is Some && domain is Some {
            1int
        } else {
            0
        });
        assert(items[k] == CopyItemView {
            label: "IPv4 Address"@,
            action: "copy-ipv4"@,
            text: v4[0],
        });
    }
}

/// The tooltip has a line for each family that has addresses, with all of them; without any there is
/// no tooltip.
pub proof fn law_tooltip(v4: Seq<Seq<char>>, v6: Seq<Seq<char>>)
    ensures
        v4.len() == 0 && v6.len() == 0 ==> tooltip_of(v4, v6) is None,
        v4.len() > 0 && v6.len() == 0 ==> tooltip_of(v4, v6) == Some(
            "IPv4: "@ + text::join(v4, ", "@),
        ),
        v4.len() == 0 && v6.len() > 0 ==> tooltip_of(v4, v6) == Some(
            "IPv6: "@ + text::join(v6, ", "@),
        ),
        v4.len() > 0 && v6.len() > 0 ==> tooltip_of(v4, v6) == Some(
            "IPv4: "@ + text::join(v4, ", "@) + "\n"@ + ("IPv6: "@ + text::join(v6, ", "@)),
        ),
{
    let a = "IPv4: "@ + text::join(v4, ", "@);
    let b = "IPv6: "@ + text::join(v6, ", "@);
    text::law_join(seq![a], b, "\n"@);
    text::law_join(Seq::empty(), a, "\n"@);
    text::law_join(Seq::empty(), b, "\n"@);
    assert(seq![a].push(b) =~= seq![a] + seq![b]);
    assert(seq![a] + Seq::empty() =~= seq![a]);
    assert(Seq::empty() + seq![b] =~= seq![b]);
}

} // verus!
