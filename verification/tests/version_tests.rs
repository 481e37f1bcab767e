use edgedb_pkg::errors::Error;
use edgedb_pkg::version::{Build, Filter, FilterMinor, MinorVersion, Specific};

#[test]
fn parse_filter_major_only() {
    assert_eq!(Filter::parse("1"), Ok(Filter { major: 1, minor: None }));
    assert_eq!(Filter::parse("17"), Ok(Filter { major: 17, minor: None }));
}

#[test]
fn parse_filter_minor() {
    assert_eq!(
        Filter::parse("1.4"),
        Ok(Filter { major: 1, minor: Some(FilterMinor::Minor(4)) })
    );
    assert_eq!(
        Filter::parse("1.0-alpha.3"),
        Ok(Filter { major: 1, minor: Some(FilterMinor::Alpha(3)) })
    );
    assert_eq!(
        Filter::parse("1.0-beta.2"),
        Ok(Filter { major: 1, minor: Some(FilterMinor::Beta(2)) })
    );
    assert_eq!(
        Filter::parse("1.0-rc.5"),
        Ok(Filter { major: 1, minor: Some(FilterMinor::Rc(5)) })
    );
}

#[test]
fn parse_filter_rejects() {
    assert_eq!(Filter::parse(""), Err(Error::FilterParse));
    assert_eq!(Filter::parse("nightly"), Err(Error::FilterParse));
    assert_eq!(Filter::parse("01"), Err(Error::FilterParse));
    assert_eq!(Filter::parse("1.4.5"), Err(Error::FilterParse));
    assert_eq!(Filter::parse("1.0-dev.5"), Err(Error::FilterParse));
    assert_eq!(Filter::parse("1."), Err(Error::FilterParse));
    assert_eq!(Filter::parse(".4"), Err(Error::FilterParse));
}

#[test]
fn parse_specific() {
    assert_eq!(
        Specific::parse("1.4"),
        Ok(Specific { major: 1, minor: MinorVersion::Minor(4) })
    );
    assert_eq!(
        Specific::parse("2.0-dev.6132"),
        Ok(Specific { major: 2, minor: MinorVersion::Dev(6132) })
    );
    assert_eq!(
        Specific::parse("1.0-rc.2"),
        Ok(Specific { major: 1, minor: MinorVersion::Rc(2) })
    );
    assert_eq!(Specific::parse("1"), Err(Error::VersionParse));
    assert_eq!(Specific::parse("nightly"), Err(Error::VersionParse));
    assert_eq!(Specific::parse("1.x"), Err(Error::VersionParse));
}

#[test]
fn parse_build() {
    let b = Build::parse("1.0-rc.2+d20210217.g1b511bb").unwrap();
    assert_eq!(b.specific, Specific { major: 1, minor: MinorVersion::Rc(2) });
    assert_eq!(b.metadata.as_deref(), Some("d20210217.g1b511bb"));

    let plain = Build::parse("1.4").unwrap();
    assert_eq!(plain.specific, Specific { major: 1, minor: MinorVersion::Minor(4) });
    assert_eq!(plain.metadata, None);

    assert_eq!(Build::parse("1.4+"), Err(Error::VersionParse));
    assert_eq!(Build::parse("+abc"), Err(Error::VersionParse));
}

#[test]
fn display_tokens() {
    assert_eq!(Filter { major: 1, minor: None }.to_text(), "1");
    assert_eq!(Filter { major: 1, minor: Some(FilterMinor::Minor(4)) }.to_text(), "1.4");
    assert_eq!(
        Filter { major: 1, minor: Some(FilterMinor::Alpha(7)) }.to_text(),
        "1.0-alpha.7"
    );
    assert_eq!(
        Specific { major: 2, minor: MinorVersion::Dev(6132) }.to_text(),
        "2.0-dev.6132"
    );
    let b = Build::parse("1.0-beta.3+g123").unwrap();
    assert_eq!(b.to_text(), "1.0-beta.3+g123");
}

#[test]
fn filter_token_reparses() {
    let filters = [
        Filter { major: 1, minor: None },
        Filter { major: 1, minor: Some(FilterMinor::Minor(4)) },
        Filter { major: 1, minor: Some(FilterMinor::Alpha(0)) },
        Filter { major: 12, minor: Some(FilterMinor::Rc(33)) },
        Filter { major: u64::MAX, minor: Some(FilterMinor::Beta(u64::MAX)) },
    ];
    for f in filters {
        assert_eq!(Filter::parse(&f.to_text()), Ok(f));
    }
}

#[test]
fn specific_ordering() {
    let v = |s: &str| Specific::parse(s).unwrap();
    assert!(v("1.2").le(&v("1.3")));
    assert!(!v("1.3").le(&v("1.2")));
    assert!(v("1.3").le(&v("1.3")));
    assert!(v("1.9").le(&v("2.0")));
    assert!(v("2.0-dev.9999").le(&v("2.0-alpha.1")));
    assert!(v("2.0-alpha.2").le(&v("2.0-beta.1")));
    assert!(v("2.0-beta.3").le(&v("2.0-rc.1")));
    assert!(v("2.0-rc.4").le(&v("2.0")));
    assert!(!v("2.0").le(&v("2.0-rc.4")));
}

#[test]
fn filter_matching() {
    let f = |s: &str| Filter::parse(s).unwrap();
    let b = |s: &str| Build::parse(s).unwrap();
    assert!(f("1.4").matches(&b("1.4+g1")));
    assert!(!f("1.4").matches(&b("1.5")));
    assert!(!f("1.4").matches(&b("2.4")));
    assert!(f("1").matches(&b("1.7")));
    assert!(f("1").matches(&b("1.0-alpha.2")));
    assert!(!f("1").matches(&b("1.0-dev.123")));
    assert!(f("2").matches(&b("2.3")));
    assert!(!f("2").matches(&b("2.0-rc.1")));
    assert!(f("1.0-rc.2").matches(&b("1.0-rc.2+build")));
    assert!(!f("1.0-rc.2").matches(&b("1.0-rc.3")));
}
