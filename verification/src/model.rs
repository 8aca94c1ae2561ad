//! Identities of what is analysed, and the status that an analysis ends in.

use crate::version::Version;
use vstd::prelude::*;
use vstd::string::StringExecFns;

verus! {

/// The source hosts whose repositories can be analysed.
#[derive(Debug, Clone, Copy, PartialEq, Eq, Hash, Structural)]
pub enum Site {
    GitHub,
    GitLab,
    BitBucket,
}

impl Site {
    /// The host's short name, as it stands in a request path.
    pub fn name(&self) -> (r: &'static str)
        ensures
            r@ == match *self {
                Site::GitHub => "github"@,
                Site::GitLab => "gitlab"@,
                Site::BitBucket => "bitbucket"@,
            },
    {
        match self {
            Site::GitHub => "github",
            Site::GitLab => "gitlab",
            Site::BitBucket => "bitbucket",
        }
    }

    /// The class of the host's icon in a rendered page.
    pub fn site_icon(&self) -> (r: &'static str)
        ensures
            r@ == match *self {
                Site::GitHub => "fa-github"@,
                Site::GitLab => "fa-gitlab"@,
                Site::BitBucket => "fa-bitbucket"@,
            },
    {
        match self {
            Site::GitHub => "fa-github",
            Site::GitLab => "fa-gitlab",
            Site::BitBucket => "fa-bitbucket",
        }
    }

    /// The address under which the host shows its repositories.
    pub fn base_uri(&self) -> (r: &'static str)
        ensures
            r@ == match *self {
                Site::GitHub => "https://github.com"@,
                Site::GitLab => "https://gitlab.com"@,
                Site::BitBucket => "https://bitbucket.org"@,
            },
    {
        match self {
            Site::GitHub => "https://github.com",
            Site::GitLab => "https://gitlab.com",
            Site::BitBucket => "https://bitbucket.org",
        }
    }
}

/// A repository on a source host.
#[derive(Debug, Clone)]
pub struct RepoIdentity {
    pub site: Site,
    pub owner: String,
    pub repo: String,
}

/// The mathematical value of a [`RepoIdentity`]: two identities are the same
/// repository exactly when their views are equal.
pub struct RepoIdentityView {
    pub site: Site,
    pub owner: Seq<char>,
    pub repo: Seq<char>,
}

impl View for RepoIdentity {
    type V = RepoIdentityView;

    open spec fn view(&self) -> RepoIdentityView {
        RepoIdentityView { site: self.site, owner: self.owner@, repo: self.repo@ }
    }
}

impl RepoIdentity {
    /// Whether `self` and `other` name the same repository.
    pub fn same(&self, other: &RepoIdentity) -> (r: bool)
        ensures
            r == (self@ == other@),
    {
        self.site == other.site && self.owner == other.owner && self.repo == other.repo
    }
}

/// One published version of a package.
#[derive(Debug, Clone)]
pub struct CrateIdentity {
    pub name: String,
    pub version: Version,
}

/// What an analysis found: nothing, a known vulnerability, or a count of
/// dependencies with the number of those that are behind.
#[derive(Debug, Clone, Copy, PartialEq, Eq, Structural)]
pub enum Status {
    Unknown,
    Insecure,
    Normal { total: u32, outdated: u32 },
}

/// The mathematical value of a [`Status`], with unbounded counts.
pub enum StatusView {
    Unknown,
    Insecure,
    Normal { total: nat, outdated: nat },
}

impl View for Status {
    type V = StatusView;

    open spec fn view(&self) -> StatusView {
        match *self {
            Status::Unknown => StatusView::Unknown,
            Status::Insecure => StatusView::Insecure,
            Status::Normal { total, outdated } => StatusView::Normal {
                total: total as nat,
                outdated: outdated as nat,
            },
        }
    }
}

impl StatusView {
    /// The status of two findings taken together: a vulnerability on either
    /// side decides; failing that, an unknown side decides; two counts add up.
    pub open spec fn combine(self, rhs: StatusView) -> StatusView {
        match (self, rhs) {
            (_, StatusView::Insecure) | (StatusView::Insecure, _) => StatusView::Insecure,
            (StatusView::Unknown, _) | (_, StatusView::Unknown) => StatusView::Unknown,
            (
                StatusView::Normal { total: t1, outdated: o1 },
                StatusView::Normal { total: t2, outdated: o2 },
            ) => StatusView::Normal { total: t1 + t2, outdated: o1 + o2 },
        }
    }

    /// Whether the counts, if any, fit the machine type that holds them.
    pub open spec fn fits(self) -> bool {
        match self {
            StatusView::Normal { total, outdated } => total <= u32::MAX && outdated <= u32::MAX,
            _ => true,
        }
    }
}

/// A count as the 32 bits of a status hold it.
pub open spec fn in_32_bits(n: nat) -> nat {
    n % 0x1_0000_0000
}

/// The status of a crate, given whether any of its dependencies is insecure,
/// how many dependencies it has and how many of them are outdated.
pub open spec fn counted(insecure: bool, total: nat, outdated: nat) -> StatusView {
    if insecure {
        StatusView::Insecure
    } else {
        StatusView::Normal { total: in_32_bits(total), outdated: in_32_bits(outdated) }
    }
}

/// The status of a list of findings: unknown for an empty list; otherwise the
/// first finding combined with each that follows, in order.
pub open spec fn combined(items: Seq<StatusView>) -> StatusView
    decreases items.len(),
{
    if items.len() == 0 {
        StatusView::Unknown
    } else if items.len() == 1 {
        items[0]
    } else {
        combined(items.drop_last()).combine(items.last())
    }
}

/// The views of a list of statuses, in order.
pub open spec fn status_views(items: Seq<Status>) -> Seq<StatusView> {
    Seq::new(items.len(), |i: int| items[i]@)
}

impl Status {
    /// The status of a crate, given whether any of its dependencies is
    /// insecure, how many dependencies it has and how many of them are
    /// outdated. The counts are kept in 32 bits.
    pub fn of_counts(insecure: bool, total: u128, outdated: u128) -> (r: Status)
        ensures
            r@ == counted(insecure, total as nat, outdated as nat),
    {
        if insecure {
            Status::Insecure
        } else {
            Status::Normal {
                total: (total % 0x1_0000_0000) as u32,
                outdated: (outdated % 0x1_0000_0000) as u32,
            }
        }
    }

    /// The status of `self` and `rhs` taken together.
    pub fn add(self, rhs: Status) -> (r: Status)
        requires
            self@.combine(rhs@).fits(),
        ensures
            r@ == self@.combine(rhs@),
    {
        match (self, rhs) {
            (_, Status::Insecure) | (Status::Insecure, _) => Status::Insecure,
            (Status::Unknown, _) | (_, Status::Unknown) => Status::Unknown,
            (
                Status::Normal { total: total1, outdated: outdated1 },
                Status::Normal { total: total2, outdated: outdated2 },
            ) => Status::Normal { total: total1 + total2, outdated: outdated1 + outdated2 },
        }
    }

    /// The status of `self` and `rhs` taken together, or `None` where a count
    /// would not fit.
    pub fn checked_add(self, rhs: Status) -> (r: Option<Status>)
        ensures
            r is Some <==> self@.combine(rhs@).fits(),
            r matches Some(s) ==> s@ == self@.combine(rhs@),
    {
        match (self, rhs) {
            (
                Status::Normal { total: total1, outdated: outdated1 },
                Status::Normal { total: total2, outdated: outdated2 },
            ) => {
                match (total1.checked_add(total2), outdated1.checked_add(outdated2)) {
                    (Some(total), Some(outdated)) => Some(Status::Normal { total, outdated }),
                    _ => None,
                }
            },
            _ => Some(self.add(rhs)),
        }
    }

    /// The status of all of `items` taken together, or `None` where a count
    /// would not fit on the way.
    pub fn sum(items: &Vec<Status>) -> (r: Option<Status>)
        ensures
            r is Some <==> forall|k: int|
                0 <= k <= items.len() ==> #[trigger] combined(
                    status_views(items@).take(k),
                ).fits(),
            r matches Some(s) ==> s@ == combined(status_views(items@)),
    {
        let ghost views = status_views(items@);
        if items.len() == 0 {
            assert(views.take(0) =~= views);
            return Some(Status::Unknown);
        }
        let mut result = items[0];
        let mut i: usize = 1;
        assert(views.take(1).drop_last() =~= views.take(0));
        while i < items.len()
            invariant
                1 <= i <= items.len(),
                views == status_views(items@),
                result@ == combined(views.take(i as int)),
                forall|k: int| 0 <= k <= i ==> #[trigger] combined(views.take(k)).fits(),
            decreases items.len() - i,
        {
            assert(views.take(i + 1).drop_last() =~= views.take(i as int));
            assert(views.take(i + 1).last() == items[i as int]@);
            match result.checked_add(items[i]) {
                Some(next) => {
                    result = next;
                },
                None => {
                    assert(!combined(views.take(i + 1)).fits());
                    return None;
                },
            }
            i += 1;
        }
        assert(views.take(i as int) =~= views);
        Some(result)
    }
}

/// Combining with a finding of nothing changes neither a finding of nothing
/// nor a vulnerability. (A count combined with nothing is nothing.)
pub proof fn lemma_combine_unknown(x: StatusView)
    requires
        !(x is Normal),
    ensures
        x.combine(StatusView::Unknown) == x,
        StatusView::Unknown.combine(x) == x,
{
}

/// A vulnerability on either side decides the combined status.
pub proof fn lemma_combine_insecure(x: StatusView)
    ensures
        x.combine(StatusView::Insecure) == StatusView::Insecure,
        StatusView::Insecure.combine(x) == StatusView::Insecure,
{
}

/// Combining does not depend on the order of its two sides.
pub proof fn lemma_combine_commutative(x: StatusView, y: StatusView)
    ensures
        x.combine(y) == y.combine(x),
{
}

/// Combining three findings does not depend on which two are combined first.
pub proof fn lemma_combine_associative(x: StatusView, y: StatusView, z: StatusView)
    ensures
        x.combine(y).combine(z) == x.combine(y.combine(z)),
{
}

/// The decimal digit for a number below ten.
pub open spec fn digit(d: nat) -> char {
    if d == 0 {
        '0'
    } else if d == 1 {
        '1'
    } else if d == 2 {
        '2'
    } else if d == 3 {
        '3'
    } else if d == 4 {
        '4'
    } else if d == 5 {
        '5'
    } else if d == 6 {
        '6'
    } else if d == 7 {
        '7'
    } else if d == 8 {
        '8'
    } else {
        '9'
    }
}

/// A number written in decimal digits, without leading zeros.
pub open spec fn decimal(n: nat) -> Seq<char>
    decreases n,
{
    if n < 10 {
        seq![digit(n)]
    } else {
        decimal(n / 10).push(digit(n % 10))
    }
}

fn digit_text(d: u32) -> (r: &'static str)
    requires
        d < 10,
    ensures
        r@ == seq![digit(d as nat)],
{
    proof {
        reveal_strlit("0");
        reveal_strlit("1");
        reveal_strlit("2");
        reveal_strlit("3");
        reveal_strlit("4");
        reveal_strlit("5");
        reveal_strlit("6");
        reveal_strlit("7");
        reveal_strlit("8");
        reveal_strlit("9");
    }
    let r = if d == 0 {
        "0"
    } else if d == 1 {
        "1"
    } else if d == 2 {
        "2"
    } else if d == 3 {
        "3"
    } else if d == 4 {
        "4"
    } else if d == 5 {
        "5"
    } else if d == 6 {
        "6"
    } else if d == 7 {
        "7"
    } else if d == 8 {
        "8"
    } else {
        "9"
    };
    assert(r@ =~= seq![digit(d as nat)]);
    r
}

/// Writes `n` in decimal digits.
pub fn decimal_text(n: u32) -> (r: String)
    ensures
        r@ == decimal(n as nat),
    decreases n,
{
    if n < 10 {
        String::from_str(digit_text(n))
    } else {
        let mut r = decimal_text(n / 10);
        r.append(digit_text(n % 10));
        assert(r@ =~= decimal(n as nat));
        r
    }
}

/// The three texts of a badge: what it is about, what it reports, and the
/// colour of the report.
#[derive(Debug, Clone)]
pub struct BadgeOptions {
    pub subject: String,
    pub status: String,
    pub color: String,
}

/// The mathematical value of [`BadgeOptions`].
pub struct BadgeOptionsView {
    pub subject: Seq<char>,
    pub status: Seq<char>,
    pub color: Seq<char>,
}

impl View for BadgeOptions {
    type V = BadgeOptionsView;

    open spec fn view(&self) -> BadgeOptionsView {
        BadgeOptionsView { subject: self.subject@, status: self.status@, color: self.color@ }
    }
}

/// The badge that reports a status: grey for unknown, red for a
/// vulnerability, yellow with the counts where dependencies are behind, and
/// green where none is or there is none at all.
pub open spec fn status_badge(status: StatusView) -> BadgeOptionsView {
    match status {
        StatusView::Unknown => BadgeOptionsView {
            subject: "dependencies"@,
            status: "unknown"@,
            color: "#9f9f9f"@,
        },
        StatusView::Insecure => BadgeOptionsView {
            subject: "dependencies"@,
            status: "insecure"@,
            color: "#e05d44"@,
        },
        StatusView::Normal { total, outdated } => if outdated > 0 {
            BadgeOptionsView {
                subject: "dependencies"@,
                status: decimal(outdated) + " of "@ + decimal(total) + " outdated"@,
                color: "#dfb317"@,
            }
        } else if total > 0 {
            BadgeOptionsView {
                subject: "dependencies"@,
                status: "up to date"@,
                color: "#4c1"@,
            }
        } else {
            BadgeOptionsView { subject: "dependencies"@, status: "none"@, color: "#4c1"@ }
        },
    }
}

/// `badge::Badge`, a value that is only passed on.
#[verifier::external_type_specification]
#[verifier::external_body]
pub struct ExBadge(badge::Badge);

/// The texts that a badge was made from.
pub uninterp spec fn badge_options(badge: badge::Badge) -> BadgeOptionsView;

/// Calls `badge::Badge::new`. Trusted: it fails exactly where the subject or
/// the status is empty, and the badge it makes holds the three texts as given.
#[verifier::external_body]
fn new_badge(options: BadgeOptions) -> (r: Result<badge::Badge, String>)
    ensures
        r is Ok <==> (options@.subject.len() > 0 && options@.status.len() > 0),
        r matches Ok(b) ==> badge_options(b) == options@,
{
    badge::Badge::new(
        badge::BadgeOptions {
            subject: options.subject,
            status: options.status,
            color: options.color,
        },
    )
}

impl Status {
    /// The texts of the badge that reports this status.
    pub fn badge_options(&self) -> (r: BadgeOptions)
        ensures
            r@ == status_badge(self@),
    {
        let subject = String::from_str("dependencies");
        match *self {
            Status::Unknown => BadgeOptions {
                subject,
                status: String::from_str("unknown"),
                color: String::from_str("#9f9f9f"),
            },
            Status::Insecure => BadgeOptions {
                subject,
                status: String::from_str("insecure"),
                color: String::from_str("#e05d44"),
            },
            Status::Normal { total, outdated } => {
                if outdated > 0 {
                    let mut status = decimal_text(outdated);
                    status.append(" of ");
                    status.append(decimal_text(total).as_str());
                    status.append(" outdated");
                    BadgeOptions { subject, status, color: String::from_str("#dfb317") }
                } else if total > 0 {
                    BadgeOptions {
                        subject,
                        status: String::from_str("up to date"),
                        color: String::from_str("#4c1"),
                    }
                } else {
                    BadgeOptions {
                        subject,
                        status: String::from_str("none"),
                        color: String::from_str("#4c1"),
                    }
                }
            },
        }
    }

    /// The badge that reports this status.
    pub fn to_badge(&self) -> (r: badge::Badge)
        ensures
            badge_options(r) == status_badge(self@),
    {
        let options = self.badge_options();
        proof {
            lemma_status_badge_has_text(self@);
        }
        match new_badge(options) {
            Ok(badge) => badge,
            Err(_) => vstd::pervasive::unreached(),
        }
    }
}

/// Every status has a badge with a subject and a report.
pub proof fn lemma_status_badge_has_text(status: StatusView)
    ensures
        status_badge(status).subject.len() > 0,
        status_badge(status).status.len() > 0,
{
    reveal_strlit("dependencies");
    reveal_strlit("unknown");
    reveal_strlit("insecure");
    reveal_strlit(" outdated");
    reveal_strlit("up to date");
    reveal_strlit("none");
}

} // verus!
