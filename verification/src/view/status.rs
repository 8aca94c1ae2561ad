//! The mood in which a page shows a status.

use crate::model::{Status, StatusView};
use vstd::prelude::*;

verus! {

/// The class of the heading for a status: danger for a vulnerability, a
/// warning where dependencies are outdated, success otherwise.
pub open spec fn hero_of(status: StatusView) -> Seq<char> {
    match status {
        StatusView::Insecure => "is-danger"@,
        StatusView::Normal { total, outdated } => if outdated > 0 {
            "is-warning"@
        } else {
            "is-success"@
        },
        StatusView::Unknown => Seq::empty(),
    }
}

/// The class of the heading of a page that shows a status. No page shows an
/// unknown status: the caller answers with an error instead.
pub fn hero_class(status: Status) -> (r: &'static str)
    requires
        !(status is Unknown),
    ensures
        r@ == hero_of(status@),
{
    match status {
        Status::Insecure => "is-danger",
        Status::Normal { total, outdated } => if outdated > 0 {
            "is-warning"
        } else {
            "is-success"
        },
        Status::Unknown => vstd::pervasive::unreached(),
    }
}

} // verus!
