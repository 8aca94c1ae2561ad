//! Semantic versions and version requirements.
//!
//! A [`Version`] holds the parts of a semantic version as plain values, so
//! that contracts can speak of them. Parsing, precedence, requirement matching
//! and rendering are done by the `semver` crate; the functions that call it
//! say in their contracts what is taken on trust.

use vstd::prelude::*;
use vstd::string::StringExecFns;

verus! {

/// One dot-separated part of a pre-release tag or of build metadata.
#[derive(Debug)]
pub enum Identifier {
    /// A part made of digits only.
    Numeric(u64),
    /// A part with letters, digits or hyphens.
    AlphaNumeric(String),
}

/// The mathematical value of an [`Identifier`].
pub enum IdentifierView {
    Numeric(nat),
    AlphaNumeric(Seq<char>),
}

impl View for Identifier {
    type V = IdentifierView;

    open spec fn view(&self) -> IdentifierView {
        match self {
            Identifier::Numeric(n) => IdentifierView::Numeric(*n as nat),
            Identifier::AlphaNumeric(s) => IdentifierView::AlphaNumeric(s@),
        }
    }
}

/// A semantic version: `major.minor.patch`, an optional pre-release tag and
/// optional build metadata.
#[derive(Debug)]
pub struct Version {
    pub major: u64,
    pub minor: u64,
    pub patch: u64,
    /// The pre-release tag; empty for a release.
    pub pre: Vec<Identifier>,
    /// The build metadata, which plays no part in precedence.
    pub build: Vec<Identifier>,
}

impl Clone for Identifier {
    fn clone(&self) -> (r: Identifier)
        ensures
            r == *self,
    {
        match self {
            Identifier::Numeric(n) => Identifier::Numeric(*n),
            Identifier::AlphaNumeric(s) => Identifier::AlphaNumeric(s.clone()),
        }
    }
}

impl Clone for Version {
    fn clone(&self) -> (r: Version)
        ensures
            r@ == self@,
    {
        let r = Version {
            major: self.major,
            minor: self.minor,
            patch: self.patch,
            pre: self.pre.clone(),
            build: self.build.clone(),
        };
        assert(r@.pre =~= self@.pre);
        assert(r@.build =~= self@.build);
        r
    }
}

/// The mathematical value of a [`Version`].
pub struct VersionView {
    pub major: nat,
    pub minor: nat,
    pub patch: nat,
    pub pre: Seq<IdentifierView>,
    pub build: Seq<IdentifierView>,
}

/// The views of a list of identifiers, in order.
pub open spec fn identifier_views(ids: Seq<Identifier>) -> Seq<IdentifierView> {
    Seq::new(ids.len(), |i: int| ids[i]@)
}

impl View for Version {
    type V = VersionView;

    open spec fn view(&self) -> VersionView {
        VersionView {
            major: self.major as nat,
            minor: self.minor as nat,
            patch: self.patch as nat,
            pre: identifier_views(self.pre@),
            build: identifier_views(self.build@),
        }
    }
}

/// How one version stands to another in precedence.
#[derive(Debug, Clone, Copy, PartialEq, Eq, Structural)]
pub enum Precedence {
    Lower,
    Same,
    Higher,
}

impl Precedence {
    /// The same relation read from the other side.
    pub open spec fn flipped(self) -> Precedence {
        match self {
            Precedence::Lower => Precedence::Higher,
            Precedence::Same => Precedence::Same,
            Precedence::Higher => Precedence::Lower,
        }
    }
}

/// Precedence of two numbers.
pub open spec fn number_precedence(a: nat, b: nat) -> Precedence {
    if a < b {
        Precedence::Lower
    } else if a > b {
        Precedence::Higher
    } else {
        Precedence::Same
    }
}

/// The code point of a character.
pub open spec fn code_point(c: char) -> nat {
    (c as u32) as nat
}

/// Precedence of two texts: character by character, by code point; a proper
/// prefix comes first.
pub open spec fn text_precedence(a: Seq<char>, b: Seq<char>) -> Precedence
    decreases a.len(),
{
    if a.len() == 0 {
        if b.len() == 0 {
            Precedence::Same
        } else {
            Precedence::Lower
        }
    } else if b.len() == 0 {
        Precedence::Higher
    } else if number_precedence(code_point(a[0]), code_point(b[0])) != Precedence::Same {
        number_precedence(code_point(a[0]), code_point(b[0]))
    } else {
        text_precedence(a.drop_first(), b.drop_first())
    }
}

/// Precedence of two identifiers: numbers by value, texts as texts, and a
/// number before any text.
pub open spec fn identifier_precedence(a: IdentifierView, b: IdentifierView) -> Precedence {
    match (a, b) {
        (IdentifierView::Numeric(x), IdentifierView::Numeric(y)) => number_precedence(x, y),
        (IdentifierView::Numeric(_), IdentifierView::AlphaNumeric(_)) => Precedence::Lower,
        (IdentifierView::AlphaNumeric(_), IdentifierView::Numeric(_)) => Precedence::Higher,
        (IdentifierView::AlphaNumeric(s), IdentifierView::AlphaNumeric(t)) => text_precedence(s, t),
    }
}

/// Precedence of two identifier lists: identifier by identifier; a proper
/// prefix comes first.
pub open spec fn tag_precedence(a: Seq<IdentifierView>, b: Seq<IdentifierView>) -> Precedence
    decreases a.len(),
{
    if a.len() == 0 {
        if b.len() == 0 {
            Precedence::Same
        } else {
            Precedence::Lower
        }
    } else if b.len() == 0 {
        Precedence::Higher
    } else if identifier_precedence(a[0], b[0]) != Precedence::Same {
        identifier_precedence(a[0], b[0])
    } else {
        tag_precedence(a.drop_first(), b.drop_first())
    }
}

/// Precedence of two versions: by major, minor and patch number in turn;
/// where these agree a pre-release comes before its release, and two
/// pre-releases are ordered by their tags. Build metadata is ignored.
pub open spec fn version_precedence(a: VersionView, b: VersionView) -> Precedence {
    if number_precedence(a.major, b.major) != Precedence::Same {
        number_precedence(a.major, b.major)
    } else if number_precedence(a.minor, b.minor) != Precedence::Same {
        number_precedence(a.minor, b.minor)
    } else if number_precedence(a.patch, b.patch) != Precedence::Same {
        number_precedence(a.patch, b.patch)
    } else if a.pre.len() == 0 && b.pre.len() == 0 {
        Precedence::Same
    } else if a.pre.len() == 0 {
        Precedence::Higher
    } else if b.pre.len() == 0 {
        Precedence::Lower
    } else {
        tag_precedence(a.pre, b.pre)
    }
}

/// Whether two versions agree in their major, minor and patch numbers.
pub open spec fn same_numbers(a: VersionView, b: VersionView) -> bool {
    a.major == b.major && a.minor == b.minor && a.patch == b.patch
}

/// Whether two versions are the same release: equal in everything but build
/// metadata.
pub open spec fn same_release(a: VersionView, b: VersionView) -> bool {
    same_numbers(a, b) && a.pre == b.pre
}

/// The view of an optional version.
pub open spec fn optional_view(v: Option<Version>) -> Option<VersionView> {
    match v {
        Some(v) => Some(v@),
        None => None,
    }
}

/// Precedence of two optional versions: an absent one comes before any
/// present one.
pub open spec fn optional_precedence(a: Option<VersionView>, b: Option<VersionView>) -> Precedence {
    match (a, b) {
        (None, None) => Precedence::Same,
        (None, Some(_)) => Precedence::Lower,
        (Some(_), None) => Precedence::Higher,
        (Some(x), Some(y)) => version_precedence(x, y),
    }
}

/// Calls `Ord::cmp` of `semver::Version` on the two versions. Trusted: the
/// outcome is the precedence that `version_precedence` spells out, which is
/// how that crate orders versions (numbers first, then the pre-release rule,
/// identifiers and strings in their derived, lexicographic order).
#[verifier::external_body]
fn semver_precedence(a: &Version, b: &Version) -> (r: Precedence)
    ensures
        r == version_precedence(a@, b@),
{
    let pick = |i: &Identifier| match i {
        Identifier::Numeric(n) => semver::Identifier::Numeric(*n),
        Identifier::AlphaNumeric(s) => semver::Identifier::AlphaNumeric(s.clone()),
    };
    let mut x = semver::Version::new(a.major, a.minor, a.patch);
    x.pre = a.pre.iter().map(pick).collect();
    let mut y = semver::Version::new(b.major, b.minor, b.patch);
    y.pre = b.pre.iter().map(pick).collect();
    match x.cmp(&y) {
        std::cmp::Ordering::Less => Precedence::Lower,
        std::cmp::Ordering::Equal => Precedence::Same,
        std::cmp::Ordering::Greater => Precedence::Higher,
    }
}

impl Version {
    /// The release `major.minor.patch`, without tag or metadata.
    pub fn new(major: u64, minor: u64, patch: u64) -> (v: Version)
        ensures
            v@ == (VersionView {
                major: major as nat,
                minor: minor as nat,
                patch: patch as nat,
                pre: Seq::empty(),
                build: Seq::empty(),
            }),
    {
        let v = Version { major, minor, patch, pre: Vec::new(), build: Vec::new() };
        assert(v@.pre =~= Seq::empty());
        assert(v@.build =~= Seq::empty());
        v
    }

    /// Whether the version carries a pre-release tag.
    pub fn is_prerelease(&self) -> (r: bool)
        ensures
            r == (self@.pre.len() > 0),
    {
        self.pre.len() > 0
    }

    /// How `self` stands to `other` in precedence.
    pub fn precedence(&self, other: &Version) -> (r: Precedence)
        ensures
            r == version_precedence(self@, other@),
    {
        semver_precedence(self, other)
    }
}

/// Precedence is reflexive: a version stands level with itself.
pub proof fn lemma_precedence_reflexive(a: VersionView)
    ensures
        version_precedence(a, a) == Precedence::Same,
{
    lemma_tag_precedence_reflexive(a.pre);
}

/// Precedence read from the other side is the flipped relation.
pub proof fn lemma_precedence_flips(a: VersionView, b: VersionView)
    ensures
        version_precedence(b, a) == version_precedence(a, b).flipped(),
{
    lemma_tag_precedence_flips(a.pre, b.pre);
}

/// Precedence is transitive: where `a` is not above `b` and `b` not above
/// `c`, `a` is not above `c`, and stands level with it only where all three
/// stand level.
pub proof fn lemma_precedence_transitive(a: VersionView, b: VersionView, c: VersionView)
    requires
        version_precedence(a, b) != Precedence::Higher,
        version_precedence(b, c) != Precedence::Higher,
    ensures
        version_precedence(a, c) != Precedence::Higher,
        version_precedence(a, c) == Precedence::Same ==> version_precedence(a, b)
            == Precedence::Same && version_precedence(b, c) == Precedence::Same,
{
    if same_numbers(a, b) && same_numbers(b, c) && a.pre.len() > 0 && b.pre.len() > 0
        && c.pre.len() > 0 {
        lemma_tag_precedence_transitive(a.pre, b.pre, c.pre);
    }
}

/// Two versions stand level exactly when they are the same release.
pub proof fn lemma_precedence_same_release(a: VersionView, b: VersionView)
    ensures
        version_precedence(a, b) == Precedence::Same <==> same_release(a, b),
{
    lemma_tag_precedence_same(a.pre, b.pre);
    if a.pre.len() == 0 && b.pre.len() == 0 {
        assert(a.pre =~= b.pre);
    }
}

proof fn lemma_text_precedence_reflexive(a: Seq<char>)
    ensures
        text_precedence(a, a) == Precedence::Same,
    decreases a.len(),
{
    if a.len() > 0 {
        lemma_text_precedence_reflexive(a.drop_first());
    }
}

proof fn lemma_text_precedence_flips(a: Seq<char>, b: Seq<char>)
    ensures
        text_precedence(b, a) == text_precedence(a, b).flipped(),
    decreases a.len(),
{
    if a.len() > 0 && b.len() > 0 {
        lemma_text_precedence_flips(a.drop_first(), b.drop_first());
    }
}

proof fn lemma_text_precedence_same(a: Seq<char>, b: Seq<char>)
    ensures
        text_precedence(a, b) == Precedence::Same <==> a == b,
    decreases a.len(),
{
    if a.len() > 0 && b.len() > 0 {
        lemma_text_precedence_same(a.drop_first(), b.drop_first());
        if text_precedence(a, b) == Precedence::Same {
            assert(a[0] == b[0]) by {
                vstd::utf8::char_u32_cast(a[0], a[0] as u32);
                vstd::utf8::char_u32_cast(b[0], b[0] as u32);
            }
            assert(a =~= seq![a[0]] + a.drop_first());
            assert(b =~= seq![b[0]] + b.drop_first());
        }
        if a == b {
            lemma_text_precedence_reflexive(a);
        }
    } else if a.len() == 0 && b.len() == 0 {
        assert(a =~= b);
    }
}

proof fn lemma_text_precedence_transitive(a: Seq<char>, b: Seq<char>, c: Seq<char>)
    requires
        text_precedence(a, b) != Precedence::Higher,
        text_precedence(b, c) != Precedence::Higher,
    ensures
        text_precedence(a, c) != Precedence::Higher,
        text_precedence(a, c) == Precedence::Same ==> text_precedence(a, b) == Precedence::Same
            && text_precedence(b, c) == Precedence::Same,
    decreases a.len(),
{
    if a.len() > 0 && b.len() > 0 && c.len() > 0 {
        if code_point(a[0]) == code_point(b[0]) && code_point(b[0]) == code_point(c[0]) {
            lemma_text_precedence_transitive(a.drop_first(), b.drop_first(), c.drop_first());
        }
    }
}

proof fn lemma_identifier_precedence_reflexive(a: IdentifierView)
    ensures
        identifier_precedence(a, a) == Precedence::Same,
{
    if let IdentifierView::AlphaNumeric(s) = a {
        lemma_text_precedence_reflexive(s);
    }
}

proof fn lemma_identifier_precedence_flips(a: IdentifierView, b: IdentifierView)
    ensures
        identifier_precedence(b, a) == identifier_precedence(a, b).flipped(),
{
    if let (IdentifierView::AlphaNumeric(s), IdentifierView::AlphaNumeric(t)) = (a, b) {
        lemma_text_precedence_flips(s, t);
    }
}

proof fn lemma_identifier_precedence_same(a: IdentifierView, b: IdentifierView)
    ensures
        identifier_precedence(a, b) == Precedence::Same <==> a == b,
{
    if let (IdentifierView::AlphaNumeric(s), IdentifierView::AlphaNumeric(t)) = (a, b) {
        lemma_text_precedence_same(s, t);
    }
}

proof fn lemma_identifier_precedence_transitive(
    a: IdentifierView,
    b: IdentifierView,
    c: IdentifierView,
)
    requires
        identifier_precedence(a, b) != Precedence::Higher,
        identifier_precedence(b, c) != Precedence::Higher,
    ensures
        identifier_precedence(a, c) != Precedence::Higher,
        identifier_precedence(a, c) == Precedence::Same ==> identifier_precedence(a, b)
            == Precedence::Same && identifier_precedence(b, c) == Precedence::Same,
{
    if let (
        IdentifierView::AlphaNumeric(s),
        IdentifierView::AlphaNumeric(t),
        IdentifierView::AlphaNumeric(u),
    ) = (a, b, c) {
        lemma_text_precedence_transitive(s, t, u);
    }
}

proof fn lemma_tag_precedence_reflexive(a: Seq<IdentifierView>)
    ensures
        tag_precedence(a, a) == Precedence::Same,
    decreases a.len(),
{
    if a.len() > 0 {
        lemma_identifier_precedence_reflexive(a[0]);
        lemma_tag_precedence_reflexive(a.drop_first());
    }
}

proof fn lemma_tag_precedence_flips(a: Seq<IdentifierView>, b: Seq<IdentifierView>)
    ensures
        tag_precedence(b, a) == tag_precedence(a, b).flipped(),
    decreases a.len(),
{
    if a.len() > 0 && b.len() > 0 {
        lemma_identifier_precedence_flips(a[0], b[0]);
        lemma_tag_precedence_flips(a.drop_first(), b.drop_first());
    }
}

proof fn lemma_tag_precedence_same(a: Seq<IdentifierView>, b: Seq<IdentifierView>)
    ensures
        tag_precedence(a, b) == Precedence::Same <==> a == b,
    decreases a.len(),
{
    if a.len() > 0 && b.len() > 0 {
        lemma_identifier_precedence_same(a[0], b[0]);
        lemma_tag_precedence_same(a.drop_first(), b.drop_first());
        if tag_precedence(a, b) == Precedence::Same {
            assert(a =~= seq![a[0]] + a.drop_first());
            assert(b =~= seq![b[0]] + b.drop_first());
        }
        if a == b {
            lemma_tag_precedence_reflexive(a);
        }
    } else if a.len() == 0 && b.len() == 0 {
        assert(a =~= b);
    }
}

proof fn lemma_tag_precedence_transitive(
    a: Seq<IdentifierView>,
    b: Seq<IdentifierView>,
    c: Seq<IdentifierView>,
)
    requires
        tag_precedence(a, b) != Precedence::Higher,
        tag_precedence(b, c) != Precedence::Higher,
    ensures
        tag_precedence(a, c) != Precedence::Higher,
        tag_precedence(a, c) == Precedence::Same ==> tag_precedence(a, b) == Precedence::Same
            && tag_precedence(b, c) == Precedence::Same,
    decreases a.len(),
{
    if a.len() > 0 && b.len() > 0 && c.len() > 0 {
        lemma_identifier_precedence_transitive(a[0], b[0], c[0]);
        if identifier_precedence(a[0], b[0]) == Precedence::Same && identifier_precedence(
            b[0],
            c[0],
        ) == Precedence::Same {
            lemma_tag_precedence_transitive(a.drop_first(), b.drop_first(), c.drop_first());
        }
    }
}

/// Whether a byte is an ASCII digit.
pub open spec fn is_digit(b: u8) -> bool {
    0x30 <= b <= 0x39
}

/// Whether a byte begins a pre-release tag or build metadata: a hyphen or a
/// plus sign.
pub open spec fn opens_tag(b: u8) -> bool {
    b == 0x2D || b == 0x2B
}

/// Whether a byte can stand in a pre-release tag or in build metadata: a
/// digit, a letter, a dot, a hyphen or a plus sign.
pub open spec fn continues_tag(b: u8) -> bool {
    is_digit(b) || 0x41 <= b <= 0x5A || 0x61 <= b <= 0x7A || b == 0x2E || opens_tag(b)
}

/// Whether `bytes` ends within a pre-release tag or build metadata: behind a
/// hyphen or a plus sign, with nothing between that could not stand in a tag.
pub open spec fn in_tag(bytes: Seq<u8>) -> bool
    decreases bytes.len(),
{
    if bytes.len() == 0 {
        false
    } else if opens_tag(bytes.last()) {
        true
    } else if continues_tag(bytes.last()) {
        in_tag(bytes.drop_last())
    } else {
        false
    }
}

/// The number of digits that `bytes` ends in, counted only outside tags and
/// metadata: the length so far of the version number that `bytes` ends in.
pub open spec fn trailing_digits(bytes: Seq<u8>) -> nat
    decreases bytes.len(),
{
    if bytes.len() == 0 || !is_digit(bytes.last()) || in_tag(bytes) {
        0
    } else {
        1 + trailing_digits(bytes.drop_last())
    }
}

/// Whether no version number in `bytes` has more than `limit` digits. Digits
/// in a pre-release tag or in build metadata do not count.
pub open spec fn numbers_within(bytes: Seq<u8>, limit: nat) -> bool {
    forall|i: int| 0 <= i <= bytes.len() ==> trailing_digits(#[trigger] bytes.take(i)) <= limit
}

/// The most digits that a version number in a requirement may have: any
/// number of so many digits fits in 64 bits.
pub const MAX_DIGITS: usize = 19;

/// Whether no version number in `bytes` has more than [`MAX_DIGITS`] digits.
pub fn numbers_fit(bytes: &[u8]) -> (r: bool)
    ensures
        r == numbers_within(bytes@, MAX_DIGITS as nat),
{
    let mut tag = false;
    let mut run: usize = 0;
    let mut i: usize = 0;
    assert(bytes@.take(0).len() == 0);
    while i < bytes.len()
        invariant
            i <= bytes.len(),
            tag == in_tag(bytes@.take(i as int)),
            run == trailing_digits(bytes@.take(i as int)),
            forall|j: int| 0 <= j <= i ==> trailing_digits(#[trigger] bytes@.take(j)) <= MAX_DIGITS,
        decreases bytes.len() - i,
    {
        assert(bytes@.take(i + 1).drop_last() =~= bytes@.take(i as int));
        assert(bytes@.take(i + 1).last() == bytes@[i as int]);
        let b = bytes[i];
        let digit = 0x30 <= b && b <= 0x39;
        if b == 0x2D || b == 0x2B {
            tag = true;
        } else if !(digit || (0x41 <= b && b <= 0x5A) || (0x61 <= b && b <= 0x7A) || b == 0x2E) {
            tag = false;
        }
        if digit && !tag {
            run = run + 1;
            if run > MAX_DIGITS {
                return false;
            }
        } else {
            run = 0;
        }
        i += 1;
    }
    assert(bytes@.take(i as int) =~= bytes@);
    true
}

/// Whether `semver` takes a text as a version requirement.
pub uninterp spec fn requirement_is_valid(text: Seq<char>) -> bool;

/// Whether the requirement that a text stands for admits a version, as
/// `semver` decides it.
pub uninterp spec fn requirement_admits(text: Seq<char>, version: VersionView) -> bool;

/// A requirement as `semver` writes it out again after reading it.
pub uninterp spec fn requirement_text(text: Seq<char>) -> Seq<char>;

/// A version as `semver` writes it out.
pub uninterp spec fn version_text(version: VersionView) -> Seq<char>;

/// Calls `semver::VersionReq::parse` and tells whether it succeeded. The
/// parser stops the program on a major, minor or patch number that does not
/// fit in 64 bits, so texts with longer numbers are kept away from it.
#[verifier::external_body]
fn semver_accepts(text: &str) -> (r: bool)
    requires
        numbers_within(vstd::utf8::encode_utf8(text@), MAX_DIGITS as nat),
    ensures
        r == requirement_is_valid(text@),
{
    semver::VersionReq::parse(text).is_ok()
}

/// Calls `semver::VersionReq::matches` on the requirement that `text` parses
/// to and on `version`; a text that does not parse admits nothing.
#[verifier::external_body]
fn semver_admits(text: &str, version: &Version) -> (r: bool)
    requires
        numbers_within(vstd::utf8::encode_utf8(text@), MAX_DIGITS as nat),
    ensures
        r == requirement_admits(text@, version@),
{
    let pick = |i: &Identifier| match i {
        Identifier::Numeric(n) => semver::Identifier::Numeric(*n),
        Identifier::AlphaNumeric(s) => semver::Identifier::AlphaNumeric(s.clone()),
    };
    let mut v = semver::Version::new(version.major, version.minor, version.patch);
    v.pre = version.pre.iter().map(pick).collect();
    v.build = version.build.iter().map(pick).collect();
    semver::VersionReq::parse(text).map(|r| r.matches(&v)).unwrap_or(false)
}

/// Calls `semver::VersionReq::parse` and writes the outcome out with its
/// `Display`; a text that does not parse gives the empty text.
#[verifier::external_body]
fn semver_requirement_text(text: &str) -> (r: String)
    requires
        numbers_within(vstd::utf8::encode_utf8(text@), MAX_DIGITS as nat),
    ensures
        r@ == requirement_text(text@),
{
    semver::VersionReq::parse(text).map(|r| r.to_string()).unwrap_or_default()
}

/// Writes a version out with the `Display` of `semver::Version`.
#[verifier::external_body]
fn semver_version_text(version: &Version) -> (r: String)
    ensures
        r@ == version_text(version@),
{
    let pick = |i: &Identifier| match i {
        Identifier::Numeric(n) => semver::Identifier::Numeric(*n),
        Identifier::AlphaNumeric(s) => semver::Identifier::AlphaNumeric(s.clone()),
    };
    let mut v = semver::Version::new(version.major, version.minor, version.patch);
    v.pre = version.pre.iter().map(pick).collect();
    v.build = version.build.iter().map(pick).collect();
    v.to_string()
}

/// A version requirement, such as `^1.2` or `>=0.3, <0.5`, held as the text
/// it was read from.
#[derive(Debug)]
pub struct VersionReq {
    text: String,
}

impl View for VersionReq {
    type V = Seq<char>;

    closed spec fn view(&self) -> Seq<char> {
        self.text@
    }
}

impl Clone for VersionReq {
    fn clone(&self) -> (r: VersionReq)
        ensures
            r@ == self@,
    {
        proof {
            use_type_invariant(self);
        }
        VersionReq { text: self.text.clone() }
    }
}

impl VersionReq {
    #[verifier::type_invariant]
    spec fn well_formed(self) -> bool {
        &&& numbers_within(vstd::utf8::encode_utf8(self.text@), MAX_DIGITS as nat)
        &&& requirement_is_valid(self.text@)
    }

    /// Whether a text can be read as a requirement: no version number in it
    /// has more than [`MAX_DIGITS`] digits, and `semver` takes it.
    pub open spec fn readable(text: Seq<char>) -> bool {
        &&& numbers_within(vstd::utf8::encode_utf8(text), MAX_DIGITS as nat)
        &&& requirement_is_valid(text)
    }

    /// Reads a requirement, or returns `None` where the text is not readable.
    pub fn parse(text: &str) -> (r: Option<VersionReq>)
        ensures
            r is Some <==> Self::readable(text@),
            r matches Some(req) ==> req@ == text@,
    {
        if numbers_fit(text.as_bytes()) && semver_accepts(text) {
            Some(VersionReq { text: String::from_str(text) })
        } else {
            None
        }
    }

    /// The text that the requirement was read from.
    pub fn as_str(&self) -> (r: &str)
        ensures
            r@ == self@,
    {
        self.text.as_str()
    }

    /// Whether the requirement admits `version`.
    pub fn matches(&self, version: &Version) -> (r: bool)
        ensures
            r == requirement_admits(self@, version@),
    {
        proof {
            use_type_invariant(self);
        }
        semver_admits(self.text.as_str(), version)
    }

    /// The requirement written out in full.
    pub fn to_text(&self) -> (r: String)
        ensures
            r@ == requirement_text(self@),
    {
        proof {
            use_type_invariant(self);
        }
        semver_requirement_text(self.text.as_str())
    }
}

impl Version {
    /// The version written out, as in `1.0.0-beta.2+build.5`.
    pub fn to_text(&self) -> (r: String)
        ensures
            r@ == version_text(self@),
    {
        semver_version_text(self)
    }

    /// Whether `self` and `other` are the same release: equal in everything
    /// but build metadata.
    pub fn same_release(&self, other: &Version) -> (r: bool)
        ensures
            r == same_release(self@, other@),
    {
        proof {
            lemma_precedence_same_release(self@, other@);
        }
        self.precedence(other) == Precedence::Same
    }
}

/// How `a` stands to `b`, an absent version coming before any present one.
pub fn precedence_of_optional(a: &Option<Version>, b: &Option<Version>) -> (r: Precedence)
    ensures
        r == optional_precedence(optional_view(*a), optional_view(*b)),
{
    match (a, b) {
        (None, None) => Precedence::Same,
        (None, Some(_)) => Precedence::Lower,
        (Some(_), None) => Precedence::Higher,
        (Some(x), Some(y)) => x.precedence(y),
    }
}

} // verus!
