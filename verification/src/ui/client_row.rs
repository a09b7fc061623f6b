//! The row of a client.
use crate::uri::parse_uri_text;
use crate::{text, uri};
use vstd::prelude::*;

verus! {

/// What a row emits where files are dropped on it.
#[derive(Debug)]
pub enum RowDrop {
    /// The drop was refused.
    Refused,
    /// The files are to be sent.
    SendFiles(Vec<String>),
}

/// The files of a drop: refused where there are none.
pub open spec fn drop_of(r: RowDrop, files: Seq<Seq<char>>) -> bool {
    if files.len() == 0 {
        r is Refused
    } else {
        r is SendFiles && text::views(r->SendFiles_0@) == files
    }
}

/// A file is dropped on a row; one without a local path is refused.
pub fn file_dropped(path: Option<String>) -> (r: RowDrop)
    ensures
        drop_of(
            r,
            match path {
                Some(p) => seq![p@],
                None => Seq::empty(),
            },
        ),
{
    match path {
        Some(p) => {
            let mut files: Vec<String> = Vec::new();
            files.push(p);
            assert(text::views(files@) =~= seq![p@]);
            RowDrop::SendFiles(files)
        },
        None => RowDrop::Refused,
    }
}

/// The text of a list of URIs is dropped on a row; one without files is refused.
pub fn text_dropped(list: &str) -> (r: RowDrop)
    ensures
        drop_of(r, uri::uri_text_paths(list@)),
{
    let files: Vec<String> = parse_uri_text(list);
    assert(text::views(files@).len() == files@.len());
    if files.len() == 0 {
        RowDrop::Refused
    } else {
        RowDrop::SendFiles(files)
    }
}

/// The port that is asked for where the entry of a row holds one.
pub fn port_changed(entry: &str) -> (r: Option<u16>)
    ensures
        match text::parsed_decimal(entry@, 65535) {
            Some(n) => r == Some(n as u16),
            None => r is None,
        },
{
    match text::parse_decimal(entry, 65535) {
        Some(n) => Some(n as u16),
        None => None,
    }
}

/// How the button for the name resolution is shown.
pub fn dns_class(resolved: bool) -> (r: &'static str)
    ensures
        r@ == (if resolved {
            "success"@
        } else {
            "warning"@
        }),
{
    if resolved {
        "success"
    } else {
        "warning"
    }
}

/// A drop without files is refused, and one with files sends all of them in order.
pub proof fn law_row_drop(r: RowDrop, files: Seq<Seq<char>>)
    requires
        drop_of(r, files),
    ensures
        r is Refused <==> files.len() == 0,
        r matches RowDrop::SendFiles(v) ==> v@.len() == files.len() && forall|i: int|
            0 <= i < files.len() ==> (#[trigger] v@[i])@ == files[i],
{
    if let RowDrop::SendFiles(v) = r {
        assert forall|i: int| 0 <= i < files.len() implies (#[trigger] v@[i])@ == files[i] by {
            assert(text::views(v@)[i] == v@[i]@);
        }
    }
}

} // verus!
