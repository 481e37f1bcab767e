use edgedb_pkg::errors::Error;

#[test]
fn descriptions() {
    assert_eq!(Error::NotFound.describe(), "page not found");
    assert_eq!(Error::HttpFailure { status: 500 }.describe(), "HTTP failure");
    assert_eq!(Error::HttpError.describe(), "HTTP error");
    assert_eq!(Error::RetryBudgetExhausted.describe(), "too many attempts");
    assert_eq!(Error::MalformedRedirect.describe(), "unexpected redirect kind");
    assert_eq!(Error::VersionParse.describe(), "invalid version");
    assert_eq!(Error::FilterParse.describe(), "invalid version filter");
    assert_eq!(
        Error::UnsupportedPrerelease.describe(),
        "prerelease channel is not supported yet"
    );
    assert_eq!(Error::InvalidPackageRoot.describe(), "package root is not a valid URL");
    assert_eq!(Error::InvalidHashFormat.describe(), "invalid hash format");
}
