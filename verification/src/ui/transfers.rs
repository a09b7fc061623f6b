//! The dialogs and messages of incoming files.
use crate::collections::IdSet;
use crate::file_transfer::paths;
use crate::ipc::{FileDecision, FileDecisionView, TransferResult, TransferResultView};
use crate::text;
use vstd::prelude::*;

verus! {

// ----- sizes ----------------------------------------------------------------

/// Bytes of a kilobyte.
pub const KIB: u64 = 1024;

/// Bytes of a megabyte.
pub const MIB: u64 = 1_048_576;

/// Bytes of a gigabyte.
pub const GIB: u64 = 1_073_741_824;

/// The smallest number that does not fit 53 bits.
pub const TWO_53: u128 = 9_007_199_254_740_992;

/// A quotient rounded to the nearest integer, halves to the even one.
pub open spec fn rounded(n: nat, d: nat) -> nat {
    let q = n / d;
    let r = n % d;
    if 2 * r < d {
        q
    } else if 2 * r > d {
        q + 1
    } else {
        q + q % 2
    }
}

/// The distance between the numbers of 53 significant bits around a number.
pub open spec fn spacing(n: nat) -> nat
    decreases n,
{
    if n < TWO_53 {
        1
    } else {
        2 * spacing(n / 2)
    }
}

/// A number rounded to 53 significant bits, halves to the even one.
pub open spec fn significant(n: nat) -> nat {
    rounded(n, spacing(n)) * spacing(n)
}

/// A size as the user sees it: gigabytes with two digits after the point, megabytes with one,
/// kilobytes with none, or bytes.
pub open spec fn size_text(bytes: u64) -> Seq<char> {
    let b = significant(bytes as nat);
    if bytes >= GIB {
        let h = rounded(b * 100, GIB as nat);
        text::dec(h / 100) + "."@ + text::dec(h / 10 % 10) + text::dec(h % 10) + " GB"@
    } else if bytes >= MIB {
        let t = rounded(b * 10, MIB as nat);
        text::dec(t / 10) + "."@ + text::dec(t % 10) + " MB"@
    } else if bytes >= KIB {
        text::dec(rounded(b, KIB as nat)) + " KB"@
    } else {
        text::dec(bytes as nat) + " B"@
    }
}

fn round_div(n: u128, d: u128) -> (r: u128)
    requires
        0 < d,
        n + d <= u128::MAX,
        2 * d <= u128::MAX,
    ensures
        r == rounded(n as nat, d as nat),
        r <= n / d + 1,
{
    let q: u128 = n / d;
    let rest: u128 = n % d;
    proof {
        vstd::arithmetic::div_mod::lemma_fundamental_div_mod(n as int, d as int);
        assert(q <= n) by (nonlinear_arith)
            requires
                n == d * q + rest,
                d > 0,
                rest >= 0,
                q >= 0,
        ;
    }
    if 2 * rest < d {
        q
    } else if 2 * rest > d {
        q + 1
    } else {
        q + q % 2
    }
}

fn spacing_of(n: u128) -> (r: u128)
    requires
        n <= u64::MAX,
    ensures
        r == spacing(n as nat),
        r == 1 || 1 <= r && r * 4_503_599_627_370_496 <= n,
    decreases n,
{
    if n < TWO_53 {
        1
    } else {
        2 * spacing_of(n / 2)
    }
}

/// A size as the user sees it.
pub fn pretty_bytes(bytes: u64) -> (r: String)
    ensures
        r@ == size_text(bytes),
{
    let unit: u128 = spacing_of(bytes as u128);
    let q: u128 = round_div(bytes as u128, unit);
    assert(q * unit <= 2 * 18_446_744_073_709_551_616 * 4096) by (nonlinear_arith)
        requires
            q <= 18_446_744_073_709_551_616,
            1 <= unit <= 4096,
    ;
    let b: u128 = q * unit;
    if bytes >= GIB {
        let h: u128 = round_div(b * 100, GIB as u128);
        let whole: String = text::dec_string_wide(h / 100);
        let tens: String = text::dec_string_wide(h / 10 % 10);
        let ones: String = text::dec_string_wide(h % 10);
        let a: String = text::concat3(whole.as_str(), ".", tens.as_str());
        text::concat3(a.as_str(), ones.as_str(), " GB")
    } else if bytes >= MIB {
        let t: u128 = round_div(b * 10, MIB as u128);
        let whole: String = text::dec_string_wide(t / 10);
        let ones: String = text::dec_string_wide(t % 10);
        let a: String = text::concat3(whole.as_str(), ".", ones.as_str());
        text::concat2(a.as_str(), " MB")
    } else if bytes >= KIB {
        let k: u128 = round_div(b, KIB as u128);
        let whole: String = text::dec_string_wide(k);
        text::concat2(whole.as_str(), " KB")
    } else {
        let whole: String = text::dec_string(bytes);
        text::concat2(whole.as_str(), " B")
    }
}

// ----- directories ----------------------------------------------------------

/// The file that the last chosen directory is kept in.
pub fn state_file_path(xdg_state_home: Option<&str>, home: Option<&str>) -> (r: Option<String>)
    ensures
        text::opt_view(r) == (match xdg_state_home {
            Some(d) => Some(paths::joined(paths::joined(d@, "lan-mouse"@), "state.json"@)),
            None => match home {
                Some(h) => Some(
                    paths::joined(
                        paths::joined(paths::joined(h@, ".local/state"@), "lan-mouse"@),
                        "state.json"@,
                    ),
                ),
                None => None,
            },
        }),
{
    let base: String = match xdg_state_home {
        Some(d) => d.to_owned(),
        None => match home {
            Some(h) => paths::join_path(h, ".local/state"),
            None => {
                return None;
            },
        },
    };
    let dir: String = paths::join_path(base.as_str(), "lan-mouse");
    Some(paths::join_path(dir.as_str(), "state.json"))
}

/// The directory that is proposed first: the download directory of the session, else
/// `Downloads` below the home directory, else the current one.
pub open spec fn download_dir(xdg_download_dir: Option<Seq<char>>, home: Option<Seq<char>>) -> Seq<
    char,
> {
    match xdg_download_dir {
        Some(d) if d.len() > 0 => d,
        _ => match home {
            Some(h) => paths::joined(h, "Downloads"@),
            None => "."@,
        },
    }
}

/// The directory that is proposed first. On Windows there is only the directory of the user's
/// profile.
pub fn default_download_dir(xdg_download_dir: &Option<String>, home: &Option<String>) -> (r: String)
    ensures
        r@ == download_dir(text::opt_view(*xdg_download_dir), text::opt_view(*home)),
{
    match xdg_download_dir {
        Some(d) => {
            if text::chars_of(d.as_str()).len() > 0 {
                return d.clone();
            }
        },
        None => {},
    }
    match home {
        Some(h) => paths::join_path(h.as_str(), "Downloads"),
        None => ".".to_owned(),
    }
}

/// The directory that the dialog starts in: the last one that was chosen, else the default one.
pub fn initial_dir(last: &Option<String>, default: &str) -> (r: String)
    ensures
        r@ == (match last {
            Some(d) => d@,
            None => default@,
        }),
{
    match last {
        Some(d) => d.clone(),
        None => default.to_owned(),
    }
}

// ----- the offer ------------------------------------------------------------

/// Texts of the dialog for an offer.
#[derive(Debug)]
pub struct OfferDialog {
    /// Title.
    pub title: String,
    /// Body.
    pub body: String,
}

/// The body of the dialog: how much, and from whom.
pub open spec fn offer_body(entries: u32, total_bytes: u64, fingerprint: Seq<char>) -> Seq<char> {
    (if entries > 1 {
        text::dec(entries as nat) + " entries, "@
    } else {
        Seq::empty()
    }) + size_text(total_bytes) + "\nFingerprint: "@ + fingerprint
}

/// The dialog for an offer.
pub fn present_file_offer(
    root_name: &str,
    entries: u32,
    total_bytes: u64,
    fingerprint: &str,
) -> (r: OfferDialog)
    ensures
        r.title@ == "Incoming files: "@ + root_name@,
        r.body@ == offer_body(entries, total_bytes, fingerprint@),
{
    let size: String = pretty_bytes(total_bytes);
    let head: String = if entries > 1 {
        let n: String = text::dec_string(entries as u64);
        text::concat3(n.as_str(), " entries, ", size.as_str())
    } else {
        size
    };
    let body: String = text::concat3(head.as_str(), "\nFingerprint: ", fingerprint);
    assert(body@ =~= offer_body(entries, total_bytes, fingerprint@));
    OfferDialog { title: text::concat2("Incoming files: ", root_name), body }
}

/// What follows an answer to the dialog.
#[derive(Clone, Copy, PartialEq, Eq, Structural, Debug)]
pub enum OfferAnswer {
    /// A directory is chosen.
    PickFolder,
    /// The offer is declined.
    Decline,
}

/// What follows an answer to the dialog: anything but an explicit acceptance declines.
pub fn offer_answered(response: &str) -> (r: OfferAnswer)
    ensures
        r == (if response@ == "accept"@ {
            OfferAnswer::PickFolder
        } else {
            OfferAnswer::Decline
        }),
{
    if text::str_eq(response, "accept") {
        OfferAnswer::PickFolder
    } else {
        OfferAnswer::Decline
    }
}

/// The title of the dialog for the directory.
pub fn folder_title(root_name: &str) -> (r: String)
    ensures
        r@ == "Save \""@ + root_name@ + "\" to…"@,
{
    text::concat3("Save \"", root_name, "\" to…")
}

/// The decision on an offer, and the directory that is remembered: a dialog that was accepted
/// takes the chosen directory, else the default one; any other declines.
pub fn open_folder_picker(accepted: bool, chosen: Option<String>, default: &str) -> (r: (
    FileDecision,
    Option<String>,
))
    ensures
        ({
            let dir = match chosen {
                Some(d) => d@,
                None => default@,
            };
            &&& accepted ==> r.0@ == (FileDecisionView::Accept { dest_dir: dir })
                && text::opt_view(r.1) == Some(dir)
            &&& !accepted ==> r.0@ == FileDecisionView::Decline && r.1 is None
        }),
{
    if !accepted {
        return (FileDecision::Decline, None);
    }
    let dir: String = match chosen {
        Some(d) => d,
        None => default.to_owned(),
    };
    (FileDecision::Accept { dest_dir: dir.clone() }, Some(dir))
}

// ----- messages -------------------------------------------------------------

/// The message for a decision, where there is one.
pub fn decision_toast(xfer_id: u64, decision: &FileDecision) -> (r: Option<String>)
    ensures
        text::opt_view(r) == (if decision@ is Decline {
            Some("Declined transfer "@ + text::dec(xfer_id as nat))
        } else {
            None
        }),
{
    match decision {
        FileDecision::Decline => {
            let n: String = text::dec_string(xfer_id);
            Some(text::concat2("Declined transfer ", n.as_str()))
        },
        _ => None,
    }
}

/// The message for a transfer that is over.
pub open spec fn finished_text(result: TransferResultView) -> Seq<char> {
    match result {
        TransferResultView::Done { destination } => "Transfer complete: saved to "@
            + destination,
        TransferResultView::Cancelled => "Transfer cancelled"@,
        TransferResultView::Error(e) => "Transfer failed: "@ + e,
    }
}

/// The transfers for which a message was shown.
#[derive(Debug)]
pub struct TransferToasts {
    started: IdSet,
}

impl View for TransferToasts {
    type V = Set<u64>;

    closed spec fn view(&self) -> Set<u64> {
        self.started@
    }
}

impl TransferToasts {
    /// No message was shown.
    pub fn new() -> (r: TransferToasts)
        ensures
            r@ == Set::<u64>::empty(),
    {
        TransferToasts { started: IdSet::new() }
    }

    /// A transfer made progress: a message is shown the first time.
    pub fn on_progress(&mut self, xfer_id: u64, total: u64) -> (r: Option<String>)
        ensures
            final(self)@ == old(self)@.insert(xfer_id),
            text::opt_view(r) == (if old(self)@.contains(xfer_id) {
                None
            } else {
                Some("Receiving "@ + size_text(total) + "…"@)
            }),
    {
        if !self.started.insert(xfer_id) {
            return None;
        }
        let size: String = pretty_bytes(total);
        Some(text::concat3("Receiving ", size.as_str(), "…"))
    }

    /// A transfer is over.
    pub fn on_finished(&mut self, xfer_id: u64, result: &TransferResult) -> (r: String)
        ensures
            final(self)@ == old(self)@.remove(xfer_id),
            r@ == finished_text(result@),
    {
        let _ = self.started.remove(xfer_id);
        match result {
            TransferResult::Done { destination } => text::concat2(
                "Transfer complete: saved to ",
                destination.as_str(),
            ),
            TransferResult::Cancelled => "Transfer cancelled".to_owned(),
            TransferResult::Error(e) => text::concat2("Transfer failed: ", e.as_str()),
        }
    }
}

// ----- laws -----------------------------------------------------------------

/// Sizes below nine petabytes are not rounded before they are divided.
pub proof fn law_small_sizes_are_exact(n: nat)
    requires
        n < TWO_53,
    ensures
        significant(n) == n,
{
    assert(spacing(n) == 1);
    assert(rounded(n, 1) == n);
    assert(rounded(n, 1) * 1 == n);
}

/// A rounded quotient is at most half away from the exact one.
pub proof fn law_rounded_is_near(n: nat, d: nat)
    requires
        d > 0,
    ensures
        2 * n <= 2 * (rounded(n, d) * d) + d,
        2 * (rounded(n, d) * d) <= 2 * n + d,
{
    vstd::arithmetic::div_mod::lemma_fundamental_div_mod(n as int, d as int);
    let q = n / d;
    assert((q + 1) * d == q * d + d) by (nonlinear_arith);
    assert(d * q == q * d) by (nonlinear_arith);
}

/// A half is rounded to the even neighbour, and an exact quotient stays.
pub proof fn law_halves_to_even(q: nat, d: nat)
    requires
        d > 0,
    ensures
        rounded(q * d, d) == q,
        rounded((q * (2 * d) + d) as nat, 2 * d) % 2 == 0,
{
    vstd::arithmetic::div_mod::lemma_div_multiples_vanish(q as int, d as int);
    vstd::arithmetic::div_mod::lemma_mod_multiples_basic(q as int, d as int);
    assert((q * d) / d == q) by (nonlinear_arith)
        requires
            d > 0,
    ;
    let n = (q * (2 * d) + d) as nat;
    vstd::arithmetic::div_mod::lemma_fundamental_div_mod_converse(
        n as int,
        (2 * d) as int,
        q as int,
        d as int,
    );
}

/// A size is rounded to 53 significant bits: it stays within half of the distance between such
/// numbers, and that distance is one part in 2^52 at most.
pub proof fn law_significant_is_near(n: nat)
    ensures
        spacing(n) > 0,
        2 * n <= 2 * significant(n) + spacing(n),
        2 * significant(n) <= 2 * n + spacing(n),
        n < 9_007_199_254_740_992 * spacing(n),
        n >= 9_007_199_254_740_992 ==> 4_503_599_627_370_496 * spacing(n) <= n,
    decreases n,
{
    lemma_spacing(n);
    law_rounded_is_near(n, spacing(n));
}

proof fn lemma_spacing(n: nat)
    ensures
        spacing(n) > 0,
        n < 9_007_199_254_740_992 * spacing(n),
        n >= 9_007_199_254_740_992 ==> 4_503_599_627_370_496 * spacing(n) <= n,
    decreases n,
{
    if n >= TWO_53 {
        lemma_spacing(n / 2);
    }
}

/// Sizes are shown in the largest unit that they reach, in bytes below a kilobyte; what is shown is at
/// most half of the last digit away from the size.
pub proof fn law_size_text(bytes: u64) -> (k: nat)
    requires
        bytes < TWO_53,
    ensures
        bytes < 1024 ==> size_text(bytes) == text::dec(bytes as nat) + " B"@,
        1024 <= bytes < 1_048_576 ==> size_text(bytes) == text::dec(k) + " KB"@ && 2 * (k * 1024)
            <= 2 * bytes + 1024 && 2 * bytes <= 2 * (k * 1024) + 1024,
        1_048_576 <= bytes < 1_073_741_824 ==> size_text(bytes) == text::dec(k / 10) + "."@
            + text::dec(k % 10) + " MB"@ && 2 * (k * 1_048_576) <= 20 * bytes + 1_048_576 && 20
            * bytes <= 2 * (k * 1_048_576) + 1_048_576,
        bytes >= 1_073_741_824 ==> size_text(bytes) == text::dec(k / 100) + "."@ + text::dec(
            k / 10 % 10,
        ) + text::dec(k % 10) + " GB"@ && 2 * (k * 1_073_741_824) <= 200 * bytes + 1_073_741_824
            && 200 * bytes <= 2 * (k * 1_073_741_824) + 1_073_741_824,
{
    law_small_sizes_are_exact(bytes as nat);
    if bytes >= GIB {
        law_rounded_is_near(bytes as nat * 100, GIB as nat);
        rounded(bytes as nat * 100, GIB as nat)
    } else if bytes >= MIB {
        law_rounded_is_near(bytes as nat * 10, MIB as nat);
        rounded(bytes as nat * 10, MIB as nat)
    } else {
        law_rounded_is_near(bytes as nat, KIB as nat);
        rounded(bytes as nat, KIB as nat)
    }
}

/// The directory that is proposed: that of the session where it is set and not empty, else the
/// downloads of the user, else the current one.
pub proof fn law_download_dir(d: Seq<char>, h: Seq<char>, home: Option<Seq<char>>)
    ensures
        d.len() > 0 ==> download_dir(Some(d), home) == d,
        download_dir(None, Some(h)) == paths::joined(h, "Downloads"@),
        download_dir(Some(Seq::empty()), Some(h)) == paths::joined(h, "Downloads"@),
        download_dir(None, None) == "."@,
{
}

/// The dialog tells the size and ends in the whole fingerprint of the sender; it counts the entries
/// where there are several.
pub proof fn law_offer_body(entries: u32, total_bytes: u64, fingerprint: Seq<char>)
    ensures
        ({
            let end = size_text(total_bytes) + "\nFingerprint: "@ + fingerprint;
            &&& entries <= 1 ==> offer_body(entries, total_bytes, fingerprint) == end
            &&& entries > 1 ==> offer_body(entries, total_bytes, fingerprint) == text::dec(
                entries as nat,
            ) + " entries, "@ + end
        }),
{
    let end = size_text(total_bytes) + "\nFingerprint: "@ + fingerprint;
    if entries > 1 {
        assert(offer_body(entries, total_bytes, fingerprint) =~= text::dec(entries as nat)
            + " entries, "@ + end);
    } else {
        assert(offer_body(entries, total_bytes, fingerprint) =~= end);
    }
}

/// The message at the end tells where the files are, or why there are none.
pub proof fn law_finished_text(place: Seq<char>, e: Seq<char>)
    ensures
        place.is_suffix_of(finished_text(TransferResultView::Done { destination: place })),
        e.is_suffix_of(finished_text(TransferResultView::Error(e))),
        finished_text(TransferResultView::Cancelled) == "Transfer cancelled"@,
{
    let a = finished_text(TransferResultView::Done { destination: place });
    assert(a.subrange(a.len() - place.len(), a.len() as int) =~= place);
    let b = finished_text(TransferResultView::Error(e));
    assert(b.subrange(b.len() - e.len(), b.len() as int) =~= e);
}

} // verus!
