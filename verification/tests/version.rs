use depsbadge::version::{
    numbers_fit, precedence_of_optional, Identifier, Precedence, Version, VersionReq,
};

fn tagged(major: u64, minor: u64, patch: u64, pre: Vec<Identifier>) -> Version {
    let mut version = Version::new(major, minor, patch);
    version.pre = pre;
    version
}

fn text(part: &str) -> Identifier {
    Identifier::AlphaNumeric(part.to_string())
}

#[test]
fn releases_are_ordered_by_their_numbers() {
    let a = Version::new(1, 0, 0);
    let b = Version::new(1, 0, 5);
    assert_eq!(a.precedence(&b), Precedence::Lower);
    assert_eq!(b.precedence(&a), Precedence::Higher);
    assert_eq!(a.precedence(&a), Precedence::Same);
    assert_eq!(Version::new(0, 9, 9).precedence(&Version::new(1, 0, 0)), Precedence::Lower);
    assert_eq!(Version::new(1, 10, 0).precedence(&Version::new(1, 9, 0)), Precedence::Higher);
}

#[test]
fn a_prerelease_comes_before_its_release() {
    let release = Version::new(1, 0, 0);
    let beta = tagged(1, 0, 0, vec![text("beta")]);
    assert!(beta.is_prerelease());
    assert!(!release.is_prerelease());
    assert_eq!(beta.precedence(&release), Precedence::Lower);
    assert_eq!(release.precedence(&beta), Precedence::Higher);
}

#[test]
fn prerelease_tags_are_ordered_part_by_part() {
    let alpha = tagged(1, 0, 0, vec![text("alpha")]);
    let alpha_1 = tagged(1, 0, 0, vec![text("alpha"), Identifier::Numeric(1)]);
    let alpha_beta = tagged(1, 0, 0, vec![text("alpha"), text("beta")]);
    let beta = tagged(1, 0, 0, vec![text("beta")]);
    let beta_2 = tagged(1, 0, 0, vec![text("beta"), Identifier::Numeric(2)]);
    let beta_11 = tagged(1, 0, 0, vec![text("beta"), Identifier::Numeric(11)]);
    let rc = tagged(1, 0, 0, vec![text("rc"), Identifier::Numeric(1)]);
    let ordered = vec![alpha, alpha_1, alpha_beta, beta, beta_2, beta_11, rc];
    for i in 0..ordered.len() {
        for j in 0..ordered.len() {
            let expected = if i < j {
                Precedence::Lower
            } else if i > j {
                Precedence::Higher
            } else {
                Precedence::Same
            };
            assert_eq!(ordered[i].precedence(&ordered[j]), expected);
        }
    }
}

#[test]
fn a_number_comes_before_any_text() {
    let number = tagged(1, 0, 0, vec![Identifier::Numeric(999)]);
    let word = tagged(1, 0, 0, vec![text("0a")]);
    assert_eq!(number.precedence(&word), Precedence::Lower);
    assert_eq!(word.precedence(&number), Precedence::Higher);
}

#[test]
fn texts_are_ordered_by_code_point() {
    let upper = tagged(1, 0, 0, vec![text("Z")]);
    let lower = tagged(1, 0, 0, vec![text("a")]);
    let longer = tagged(1, 0, 0, vec![text("ab")]);
    assert_eq!(upper.precedence(&lower), Precedence::Lower);
    assert_eq!(lower.precedence(&longer), Precedence::Lower);
    assert_eq!(longer.precedence(&upper), Precedence::Higher);
}

#[test]
fn build_metadata_plays_no_part() {
    let plain = Version::new(1, 2, 3);
    let mut built = Version::new(1, 2, 3);
    built.build.push(text("build"));
    built.build.push(Identifier::Numeric(5));
    assert_eq!(plain.precedence(&built), Precedence::Same);
    assert!(plain.same_release(&built));
    assert!(!plain.same_release(&Version::new(1, 2, 4)));
    assert!(!plain.same_release(&tagged(1, 2, 3, vec![text("pre")])));
}

#[test]
fn an_absent_version_comes_before_any_present_one() {
    let some = Some(Version::new(0, 0, 1));
    assert_eq!(precedence_of_optional(&None, &some), Precedence::Lower);
    assert_eq!(precedence_of_optional(&some, &None), Precedence::Higher);
    assert_eq!(precedence_of_optional(&None, &None), Precedence::Same);
    assert_eq!(
        precedence_of_optional(&Some(Version::new(1, 0, 0)), &Some(Version::new(1, 1, 0))),
        Precedence::Lower
    );
}

#[test]
fn versions_are_written_out_in_full() {
    assert_eq!(Version::new(1, 0, 5).to_text(), "1.0.5");
    let mut version = tagged(1, 0, 0, vec![text("beta"), Identifier::Numeric(2)]);
    version.build.push(text("build"));
    version.build.push(Identifier::Numeric(5));
    assert_eq!(version.to_text(), "1.0.0-beta.2+build.5");
}

#[test]
fn a_cloned_version_is_the_same_version() {
    let mut version = tagged(3, 1, 4, vec![text("rc"), Identifier::Numeric(1)]);
    version.build.push(text("x"));
    let copy = version.clone();
    assert_eq!(copy.to_text(), version.to_text());
    assert_eq!(copy.precedence(&version), Precedence::Same);
}

#[test]
fn requirements_are_read_or_refused() {
    assert!(VersionReq::parse("1.0").is_some());
    assert!(VersionReq::parse("*").is_some());
    assert!(VersionReq::parse("=0.1.0").is_some());
    assert!(VersionReq::parse(">=0.3, <0.5").is_some());
    assert!(VersionReq::parse("~1.2.3").is_some());
    assert!(VersionReq::parse("not a requirement").is_none());
    assert!(VersionReq::parse("1.0.0.0.0").is_none());
    assert_eq!(VersionReq::parse("^1.2").unwrap().as_str(), "^1.2");
}

#[test]
fn a_requirement_with_a_number_too_long_is_refused() {
    assert!(VersionReq::parse("1.99999999999999999999.0").is_none());
    assert!(VersionReq::parse("123456789012345678901234567890").is_none());
    assert!(VersionReq::parse("1234567890123456789.0.0").is_some());
}

#[test]
fn version_numbers_are_measured() {
    assert!(numbers_fit(b""));
    assert!(numbers_fit(b"1234567890123456789"));
    assert!(!numbers_fit(b"12345678901234567890"));
    assert!(numbers_fit(b"1234567890.1234567890"));
    assert!(!numbers_fit(b"a.00000000000000000000b"));
    assert!(!numbers_fit(b">=1.0.0, <1.12345678901234567890.0"));
    assert!(!numbers_fit(b"1.0.0 - 12345678901234567890"));
}

#[test]
fn digits_in_a_tag_are_not_measured() {
    assert!(numbers_fit(b"1.0.0-12345678901234567890"));
    assert!(numbers_fit(b"1.0.0-rc.12345678901234567890"));
    assert!(numbers_fit(b"1.0.0+12345678901234567890"));
    assert!(numbers_fit(b"=1.0.0-a-12345678901234567890"));
    assert!(!numbers_fit(b"1.0.0-rc 12345678901234567890"));
    assert!(!numbers_fit(b"1.0.0-rc||12345678901234567890"));
}

#[test]
fn a_long_number_in_a_tag_is_read_as_text() {
    let pinned = VersionReq::parse("=1.0.0-20240101123456789012").unwrap();
    let mut version = Version::new(1, 0, 0);
    version.pre.push(text("20240101123456789012"));
    assert!(pinned.matches(&version));
    assert!(!pinned.matches(&Version::new(1, 0, 0)));
}

#[test]
fn a_requirement_admits_what_it_covers() {
    let caret = VersionReq::parse("^1.0").unwrap();
    assert!(caret.matches(&Version::new(1, 0, 0)));
    assert!(caret.matches(&Version::new(1, 0, 5)));
    assert!(caret.matches(&Version::new(1, 9, 0)));
    assert!(!caret.matches(&Version::new(2, 0, 0)));
    assert!(!caret.matches(&Version::new(0, 9, 0)));
    let exact = VersionReq::parse("=0.1.0").unwrap();
    assert!(exact.matches(&Version::new(0, 1, 0)));
    assert!(!exact.matches(&Version::new(0, 1, 1)));
    let any = VersionReq::parse("*").unwrap();
    assert!(any.matches(&Version::new(7, 7, 7)));
    let minor = VersionReq::parse("0.2").unwrap();
    assert!(minor.matches(&Version::new(0, 2, 0)));
    assert!(!minor.matches(&Version::new(1, 0, 0)));
}

#[test]
fn a_requirement_admits_a_prerelease_only_when_it_names_one() {
    let beta = tagged(1, 0, 0, vec![text("beta")]);
    assert!(!VersionReq::parse("1.0").unwrap().matches(&beta));
    assert!(VersionReq::parse("=1.0.0-beta").unwrap().matches(&beta));
}

#[test]
fn requirements_are_written_out_in_full() {
    assert_eq!(VersionReq::parse("*").unwrap().to_text(), ">=0.0.0");
    assert_eq!(VersionReq::parse("=1.0.0").unwrap().to_text(), "=1.0.0");
    let copy = VersionReq::parse(">=1.2.3").unwrap().clone();
    assert_eq!(copy.as_str(), ">=1.2.3");
    assert_eq!(copy.to_text(), ">=1.2.3");
}
