//! The version algebra: concrete versions, version filters, build
//! versions, their total order, their matching rules, and the canonical
//! token grammar
//!
//! ```text
//! specific := MAJOR "." minor
//! minor    := NUM | "0-alpha." NUM | "0-beta." NUM | "0-rc." NUM | "0-dev." NUM
//! filter   := MAJOR | MAJOR "." fminor        (fminor: minor without dev)
//! build    := specific [ "+" METADATA ]
//! ```
//!
//! where `MAJOR` and `NUM` are canonical decimal `u64` numbers.

use vstd::prelude::*;

use crate::errors::Error;
use crate::num::{all_digits, dec_digits, is_digit, parse_u64, spec_parse_u64, u64_to_dec};
use crate::num::{lemma_dec_digits_wf, lemma_dec_round_trip};
use crate::strutil::{find_char, find_char_exec, lemma_find_char, lemma_find_char_at, str_eq};

verus! {

/// The minor classification of a concrete version.
#[derive(Debug, Clone, Copy, PartialEq, Eq, Structural)]
pub enum MinorVersion {
    /// A nightly build number.
    Dev(u64),
    Alpha(u64),
    Beta(u64),
    Rc(u64),
    /// A stable minor release.
    Minor(u64),
}

/// The minor constraint of a version filter; filters cannot name dev builds.
#[derive(Debug, Clone, Copy, PartialEq, Eq, Structural)]
pub enum FilterMinor {
    Alpha(u64),
    Beta(u64),
    Rc(u64),
    Minor(u64),
}

/// A concrete, comparable version.
#[derive(Debug, Clone, Copy, PartialEq, Eq, Structural)]
pub struct Specific {
    pub major: u64,
    pub minor: MinorVersion,
}

/// A partial version specification used to test compatibility.
#[derive(Debug, Clone, Copy, PartialEq, Eq, Structural)]
pub struct Filter {
    pub major: u64,
    pub minor: Option<FilterMinor>,
}

/// A concrete version together with optional build metadata.  Ordering
/// comparisons go through the `Specific` projection alone.
#[derive(Debug, Clone, PartialEq, Eq)]
pub struct Build {
    pub specific: Specific,
    pub metadata: Option<String>,
}

/// The mathematical image of a `Build`.
pub ghost struct BuildModel {
    pub specific: Specific,
    pub metadata: Option<Seq<char>>,
}

impl View for Build {
    type V = BuildModel;

    open spec fn view(&self) -> BuildModel {
        BuildModel {
            specific: self.specific,
            metadata: match self.metadata {
                Some(ref m) => Some(m@),
                None => None,
            },
        }
    }
}

impl Build {
    /// The concrete version, dropping build metadata.
    pub fn specific(&self) -> (r: Specific)
        ensures
            r == self.specific,
    {
        self.specific
    }
}

// ---------------------------------------------------------------------
// Ordering
// ---------------------------------------------------------------------
/// Release tiers in ascending order: dev builds precede every prerelease
/// of the same major version, prereleases precede the stable releases.
pub open spec fn minor_rank(m: MinorVersion) -> int {
    match m {
        MinorVersion::Dev(_) => 0,
        MinorVersion::Alpha(_) => 1,
        MinorVersion::Beta(_) => 2,
        MinorVersion::Rc(_) => 3,
        MinorVersion::Minor(_) => 4,
    }
}

pub open spec fn minor_num(m: MinorVersion) -> u64 {
    match m {
        MinorVersion::Dev(n) => n,
        MinorVersion::Alpha(n) => n,
        MinorVersion::Beta(n) => n,
        MinorVersion::Rc(n) => n,
        MinorVersion::Minor(n) => n,
    }
}

/// The total order on concrete versions: by major version, then tier,
/// then number within the tier.
pub open spec fn spec_specific_le(a: Specific, b: Specific) -> bool {
    if a.major != b.major {
        a.major < b.major
    } else if minor_rank(a.minor) != minor_rank(b.minor) {
        minor_rank(a.minor) < minor_rank(b.minor)
    } else {
        minor_num(a.minor) <= minor_num(b.minor)
    }
}

impl Specific {
    fn rank(&self) -> (r: u64)
        ensures
            r as int == minor_rank(self.minor),
    {
        match self.minor {
            MinorVersion::Dev(_) => 0,
            MinorVersion::Alpha(_) => 1,
            MinorVersion::Beta(_) => 2,
            MinorVersion::Rc(_) => 3,
            MinorVersion::Minor(_) => 4,
        }
    }

    fn num(&self) -> (r: u64)
        ensures
            r == minor_num(self.minor),
    {
        match self.minor {
            MinorVersion::Dev(n) => n,
            MinorVersion::Alpha(n) => n,
            MinorVersion::Beta(n) => n,
            MinorVersion::Rc(n) => n,
            MinorVersion::Minor(n) => n,
        }
    }

    /// Does `self` precede or equal `other` in the version order?
    pub fn le(&self, other: &Specific) -> (r: bool)
        ensures
            r == spec_specific_le(*self, *other),
    {
        if self.major != other.major {
            self.major < other.major
        } else if self.rank() != other.rank() {
            self.rank() < other.rank()
        } else {
            self.num() <= other.num()
        }
    }
}

// ---------------------------------------------------------------------
// Matching
// ---------------------------------------------------------------------
/// When a filter accepts a concrete version: the major versions must be
/// equal; an unconstrained minor accepts every stable release and, for
/// major version 1 only, the prereleases (never dev builds); a minor
/// constraint accepts exactly the version with the same tier and number.
pub open spec fn spec_filter_matches(f: Filter, v: Specific) -> bool {
    f.major == v.major && match (f.minor, v.minor) {
        (None, MinorVersion::Minor(_)) => true,
        (None, MinorVersion::Dev(_)) => false,
        (None, _) => v.major == 1,
        (Some(FilterMinor::Minor(q)), MinorVersion::Minor(n)) => q == n,
        (Some(FilterMinor::Alpha(q)), MinorVersion::Alpha(n)) => q == n,
        (Some(FilterMinor::Beta(q)), MinorVersion::Beta(n)) => q == n,
        (Some(FilterMinor::Rc(q)), MinorVersion::Rc(n)) => q == n,
        _ => false,
    }
}

impl Filter {
    /// The compatibility test against a build version.
    pub fn matches(&self, v: &Build) -> (r: bool)
        ensures
            r == spec_filter_matches(*self, v.specific),
    {
        if self.major != v.specific.major {
            return false;
        }
        match (self.minor, v.specific.minor) {
            (None, MinorVersion::Minor(_)) => true,
            (None, MinorVersion::Dev(_)) => false,
            (None, _) => v.specific.major == 1,
            (Some(FilterMinor::Minor(q)), MinorVersion::Minor(n)) => q == n,
            (Some(FilterMinor::Alpha(q)), MinorVersion::Alpha(n)) => q == n,
            (Some(FilterMinor::Beta(q)), MinorVersion::Beta(n)) => q == n,
            (Some(FilterMinor::Rc(q)), MinorVersion::Rc(n)) => q == n,
            _ => false,
        }
    }
}

// ---------------------------------------------------------------------
// Tokens
// ---------------------------------------------------------------------
pub open spec fn alpha_tag() -> Seq<char> {
    seq!['a', 'l', 'p', 'h', 'a']
}

pub open spec fn beta_tag() -> Seq<char> {
    seq!['b', 'e', 't', 'a']
}

pub open spec fn rc_tag() -> Seq<char> {
    seq!['r', 'c']
}

pub open spec fn dev_tag() -> Seq<char> {
    seq!['d', 'e', 'v']
}

/// `"0-" tag "." digits`, the prerelease minor notation.
pub open spec fn pre_minor_token(tag: Seq<char>, n: u64) -> Seq<char> {
    seq!['0', '-'] + tag + seq!['.'] + dec_digits(n as nat)
}

pub open spec fn minor_token(m: MinorVersion) -> Seq<char> {
    match m {
        MinorVersion::Minor(n) => dec_digits(n as nat),
        MinorVersion::Alpha(n) => pre_minor_token(alpha_tag(), n),
        MinorVersion::Beta(n) => pre_minor_token(beta_tag(), n),
        MinorVersion::Rc(n) => pre_minor_token(rc_tag(), n),
        MinorVersion::Dev(n) => pre_minor_token(dev_tag(), n),
    }
}

pub open spec fn specific_token(v: Specific) -> Seq<char> {
    dec_digits(v.major as nat) + seq!['.'] + minor_token(v.minor)
}

/// Lift a filter constraint to the minor classification it names.
pub open spec fn lift_filter_minor(m: FilterMinor) -> MinorVersion {
    match m {
        FilterMinor::Minor(n) => MinorVersion::Minor(n),
        FilterMinor::Alpha(n) => MinorVersion::Alpha(n),
        FilterMinor::Beta(n) => MinorVersion::Beta(n),
        FilterMinor::Rc(n) => MinorVersion::Rc(n),
    }
}

pub open spec fn filter_token(f: Filter) -> Seq<char> {
    match f.minor {
        None => dec_digits(f.major as nat),
        Some(m) => dec_digits(f.major as nat) + seq!['.'] + minor_token(lift_filter_minor(m)),
    }
}

pub open spec fn build_token(b: BuildModel) -> Seq<char> {
    match b.metadata {
        None => specific_token(b.specific),
        Some(md) => specific_token(b.specific) + seq!['+'] + md,
    }
}

// ---------------------------------------------------------------------
// Parsing, specification level
// ---------------------------------------------------------------------
/// Parse a minor token: either a plain number, or `"0-" tag "." number`.
pub open spec fn spec_parse_minor(s: Seq<char>) -> Option<MinorVersion> {
    match find_char(s, '-') {
        None => match spec_parse_u64(s) {
            Some(n) => Some(MinorVersion::Minor(n)),
            None => None,
        },
        Some(d) => {
            if d != 1 || s[0] != '0' {
                None
            } else {
                let rest = s.skip(2);
                match find_char(rest, '.') {
                    None => None,
                    Some(p) => {
                        let tag = rest.take(p);
                        let digits = rest.skip(p + 1);
                        match spec_parse_u64(digits) {
                            None => None,
                            Some(n) => if tag == alpha_tag() {
                                Some(MinorVersion::Alpha(n))
                            } else if tag == beta_tag() {
                                Some(MinorVersion::Beta(n))
                            } else if tag == rc_tag() {
                                Some(MinorVersion::Rc(n))
                            } else if tag == dev_tag() {
                                Some(MinorVersion::Dev(n))
                            } else {
                                None
                            },
                        }
                    },
                }
            }
        },
    }
}

pub open spec fn spec_parse_specific(s: Seq<char>) -> Option<Specific> {
    match find_char(s, '.') {
        None => None,
        Some(d) => match (spec_parse_u64(s.take(d)), spec_parse_minor(s.skip(d + 1))) {
            (Some(major), Some(minor)) => Some(Specific { major, minor }),
            _ => None,
        },
    }
}

pub open spec fn spec_parse_filter(s: Seq<char>) -> Option<Filter> {
    match find_char(s, '.') {
        None => match spec_parse_u64(s) {
            Some(major) => Some(Filter { major, minor: None }),
            None => None,
        },
        Some(d) => match (spec_parse_u64(s.take(d)), spec_parse_minor(s.skip(d + 1))) {
            (Some(major), Some(MinorVersion::Minor(n))) => Some(
                Filter { major, minor: Some(FilterMinor::Minor(n)) },
            ),
            (Some(major), Some(MinorVersion::Alpha(n))) => Some(
                Filter { major, minor: Some(FilterMinor::Alpha(n)) },
            ),
            (Some(major), Some(MinorVersion::Beta(n))) => Some(
                Filter { major, minor: Some(FilterMinor::Beta(n)) },
            ),
            (Some(major), Some(MinorVersion::Rc(n))) => Some(
                Filter { major, minor: Some(FilterMinor::Rc(n)) },
            ),
            _ => None,
        },
    }
}

pub open spec fn spec_parse_build(s: Seq<char>) -> Option<BuildModel> {
    match find_char(s, '+') {
        None => match spec_parse_specific(s) {
            Some(v) => Some(BuildModel { specific: v, metadata: None }),
            None => None,
        },
        Some(p) => {
            if p + 1 == s.len() {
                None
            } else {
                match spec_parse_specific(s.take(p)) {
                    Some(v) => Some(BuildModel { specific: v, metadata: Some(s.skip(p + 1)) }),
                    None => None,
                }
            }
        },
    }
}

// ---------------------------------------------------------------------
// Round trips
// ---------------------------------------------------------------------
proof fn lemma_digit_seq_free_of(s: Seq<char>, c: char)
    requires
        all_digits(s),
        !is_digit(c),
    ensures
        find_char(s, c) is None,
{
    lemma_find_char(s, c);
    match find_char(s, c) {
        Some(i) => {
            assert(is_digit(s[i]));
        },
        None => {},
    }
}

/// The characters of the four tier tags: letters only, never one of the
/// token separators.
proof fn lemma_tag_chars(tag: Seq<char>)
    requires
        tag == alpha_tag() || tag == beta_tag() || tag == rc_tag() || tag == dev_tag(),
    ensures
        forall|j: int|
            0 <= j < tag.len() ==> #[trigger] tag[j] != '-' && tag[j] != '.' && tag[j] != '+',
{
    if tag == alpha_tag() {
        assert forall|j: int| 0 <= j < tag.len() implies #[trigger] tag[j] != '-' && tag[j] != '.'
            && tag[j] != '+' by {
            if j == 0 {
                assert(tag[j] == 'a');
            } else if j == 1 {
                assert(tag[j] == 'l');
            } else if j == 2 {
                assert(tag[j] == 'p');
            } else if j == 3 {
                assert(tag[j] == 'h');
            } else {
                assert(tag[j] == 'a');
            }
        }
    } else if tag == beta_tag() {
        assert forall|j: int| 0 <= j < tag.len() implies #[trigger] tag[j] != '-' && tag[j] != '.'
            && tag[j] != '+' by {
            if j == 0 {
                assert(tag[j] == 'b');
            } else if j == 1 {
                assert(tag[j] == 'e');
            } else if j == 2 {
                assert(tag[j] == 't');
            } else {
                assert(tag[j] == 'a');
            }
        }
    } else if tag == rc_tag() {
        assert forall|j: int| 0 <= j < tag.len() implies #[trigger] tag[j] != '-' && tag[j] != '.'
            && tag[j] != '+' by {
            if j == 0 {
                assert(tag[j] == 'r');
            } else {
                assert(tag[j] == 'c');
            }
        }
    } else {
        assert forall|j: int| 0 <= j < tag.len() implies #[trigger] tag[j] != '-' && tag[j] != '.'
            && tag[j] != '+' by {
            if j == 0 {
                assert(tag[j] == 'd');
            } else if j == 1 {
                assert(tag[j] == 'e');
            } else {
                assert(tag[j] == 'v');
            }
        }
    }
}

/// Structure of a prerelease minor token: where its separators sit and
/// what its pieces are.
proof fn lemma_parse_pre_minor(tag: Seq<char>, n: u64)
    requires
        1 <= tag.len(),
        forall|j: int| 0 <= j < tag.len() ==> #[trigger] tag[j] != '-' && tag[j] != '.',
    ensures
        ({
            let t = pre_minor_token(tag, n);
            &&& find_char(t, '-') == Some(1int)
            &&& t[0] == '0'
            &&& t.skip(2) == tag + seq!['.'] + dec_digits(n as nat)
            &&& find_char(t.skip(2), '.') == Some(tag.len() as int)
            &&& t.skip(2).take(tag.len() as int) == tag
            &&& spec_parse_u64(t.skip(2).skip(tag.len() as int + 1)) == Some(n)
        }),
{
    let t = pre_minor_token(tag, n);
    lemma_dec_digits_wf(n as nat);
    lemma_dec_round_trip(n);
    assert(t[0] == '0');
    assert(t[1] == '-');
    lemma_find_char_at(t, '-', 1);
    let rest = t.skip(2);
    assert(rest =~= tag + seq!['.'] + dec_digits(n as nat));
    let tl = tag.len() as int;
    assert(rest[tl] == '.');
    assert forall|j: int| 0 <= j < tl implies rest[j] != '.' by {
        assert(rest[j] == tag[j]);
    }
    lemma_find_char_at(rest, '.', tl);
    assert(rest.take(tl) =~= tag);
    assert(rest.skip(tl + 1) =~= dec_digits(n as nat));
}

/// Every minor token parses back to the classification it was built from.
proof fn lemma_parse_minor_token(m: MinorVersion)
    ensures
        spec_parse_minor(minor_token(m)) == Some(m),
{
    assert(alpha_tag().len() == 5);
    assert(beta_tag().len() == 4);
    assert(rc_tag().len() == 2);
    assert(dev_tag().len() == 3);
    match m {
        MinorVersion::Minor(n) => {
            lemma_dec_digits_wf(n as nat);
            assert(!is_digit('-'));
            lemma_digit_seq_free_of(dec_digits(n as nat), '-');
            lemma_dec_round_trip(n);
        },
        MinorVersion::Alpha(n) => {
            let tag = alpha_tag();
            lemma_tag_chars(tag);
            lemma_parse_pre_minor(tag, n);
        },
        MinorVersion::Beta(n) => {
            let tag = beta_tag();
            lemma_tag_chars(tag);
            lemma_parse_pre_minor(tag, n);
            assert(tag != alpha_tag());
        },
        MinorVersion::Rc(n) => {
            let tag = rc_tag();
            lemma_tag_chars(tag);
            lemma_parse_pre_minor(tag, n);
            assert(tag != alpha_tag());
            assert(tag != beta_tag());
        },
        MinorVersion::Dev(n) => {
            let tag = dev_tag();
            lemma_tag_chars(tag);
            lemma_parse_pre_minor(tag, n);
            assert(tag != alpha_tag());
            assert(tag != beta_tag());
            assert(tag != rc_tag());
        },
    }
}

/// Parsing inverts display for concrete versions: the canonical token of
/// any version parses back to exactly that version.
pub proof fn lemma_specific_token_round_trip(v: Specific)
    ensures
        spec_parse_specific(specific_token(v)) == Some(v),
{
    lemma_dec_digits_wf(v.major as nat);
    lemma_dec_round_trip(v.major);
    let t = specific_token(v);
    let md = dec_digits(v.major as nat);
    let d = md.len() as int;
    assert(t[d] == '.');
    assert forall|j: int| 0 <= j < d implies t[j] != '.' by {
        assert(t[j] == md[j]);
        assert(is_digit(md[j]));
    }
    lemma_find_char_at(t, '.', d);
    assert(t.take(d) =~= md);
    assert(t.skip(d + 1) =~= minor_token(v.minor));
    lemma_parse_minor_token(v.minor);
}

/// No character of a minor token is a `'+'`, so build metadata always
/// starts at the first `'+'` of a build token.
proof fn lemma_minor_token_no_plus(m: MinorVersion)
    ensures
        forall|j: int| 0 <= j < minor_token(m).len() ==> #[trigger] minor_token(m)[j] != '+',
{
    match m {
        MinorVersion::Minor(n) => {
            lemma_dec_digits_wf(n as nat);
            assert forall|j: int|
                0 <= j < minor_token(m).len() implies #[trigger] minor_token(m)[j] != '+' by {
                assert(is_digit(minor_token(m)[j]));
            }
        },
        MinorVersion::Alpha(n) => {
            lemma_pre_minor_no_plus(alpha_tag(), n);
        },
        MinorVersion::Beta(n) => {
            lemma_pre_minor_no_plus(beta_tag(), n);
        },
        MinorVersion::Rc(n) => {
            lemma_pre_minor_no_plus(rc_tag(), n);
        },
        MinorVersion::Dev(n) => {
            lemma_pre_minor_no_plus(dev_tag(), n);
        },
    }
}

proof fn lemma_pre_minor_no_plus(tag: Seq<char>, n: u64)
    requires
        tag == alpha_tag() || tag == beta_tag() || tag == rc_tag() || tag == dev_tag(),
    ensures
        forall|j: int|
            0 <= j < pre_minor_token(tag, n).len() ==> #[trigger] pre_minor_token(tag, n)[j]
                != '+',
{
    lemma_tag_chars(tag);
    lemma_dec_digits_wf(n as nat);
    let t = pre_minor_token(tag, n);
    let tl = tag.len() as int;
    assert forall|j: int| 0 <= j < t.len() implies #[trigger] t[j] != '+' by {
        if j == 0 {
            assert(t[j] == '0');
        } else if j == 1 {
            assert(t[j] == '-');
        } else if j < 2 + tl {
            assert(t[j] == tag[j - 2]);
        } else if j == 2 + tl {
            assert(t[j] == '.');
        } else {
            assert(t[j] == dec_digits(n as nat)[j - 3 - tl]);
            assert(is_digit(t[j]));
        }
    }
}

/// Parsing inverts display for build versions whose metadata, if any, is
/// nonempty: the token written by `Build::to_text` parses back to the
/// same value.
pub proof fn lemma_build_token_round_trip(b: BuildModel)
    requires
        b.metadata matches Some(md) ==> md.len() >= 1,
    ensures
        spec_parse_build(build_token(b)) == Some(b),
{
    let st = specific_token(b.specific);
    let md = dec_digits(b.specific.major as nat);
    let d = md.len() as int;
    lemma_dec_digits_wf(b.specific.major as nat);
    lemma_minor_token_no_plus(b.specific.minor);
    lemma_specific_token_round_trip(b.specific);
    assert forall|j: int| 0 <= j < st.len() implies #[trigger] st[j] != '+' by {
        if j < d {
            assert(st[j] == md[j]);
            assert(is_digit(st[j]));
        } else if j == d {
            assert(st[j] == '.');
        } else {
            assert(st[j] == minor_token(b.specific.minor)[j - d - 1]);
        }
    }
    match b.metadata {
        None => {
            lemma_find_char(st, '+');
            match find_char(st, '+') {
                Some(i) => {
                    assert(st[i] != '+');
                },
                None => {},
            }
        },
        Some(meta) => {
            let t = build_token(b);
            let p = st.len() as int;
            assert(t[p] == '+');
            assert forall|j: int| 0 <= j < p implies t[j] != '+' by {
                assert(t[j] == st[j]);
            }
            lemma_find_char_at(t, '+', p);
            assert(t.take(p) =~= st);
            assert(t.skip(p + 1) =~= meta);
        },
    }
}

/// Parsing inverts display for filters: the canonical token of any
/// filter parses back to exactly that filter.
pub proof fn lemma_filter_token_round_trip(f: Filter)
    ensures
        spec_parse_filter(filter_token(f)) == Some(f),
{
    lemma_dec_digits_wf(f.major as nat);
    lemma_dec_round_trip(f.major);
    match f.minor {
        None => {
            assert(!is_digit('.'));
            lemma_digit_seq_free_of(dec_digits(f.major as nat), '.');
        },
        Some(m) => {
            let t = filter_token(f);
            let md = dec_digits(f.major as nat);
            let d = md.len() as int;
            assert(t[d] == '.');
            assert forall|j: int| 0 <= j < d implies t[j] != '.' by {
                assert(t[j] == md[j]);
                assert(is_digit(md[j]));
            }
            lemma_find_char_at(t, '.', d);
            assert(t.take(d) =~= md);
            assert(t.skip(d + 1) =~= minor_token(lift_filter_minor(m)));
            lemma_parse_minor_token(lift_filter_minor(m));
        },
    }
}

// ---------------------------------------------------------------------
// Parsing, executable
// ---------------------------------------------------------------------
fn parse_minor(s: &str) -> (r: Option<MinorVersion>)
    ensures
        r == spec_parse_minor(s@),
{
    let n = s.unicode_len();
    match find_char_exec(s, '-') {
        None => match parse_u64(s) {
            Some(v) => Some(MinorVersion::Minor(v)),
            None => None,
        },
        Some(d) => {
            proof {
                lemma_find_char(s@, '-');
            }
            if d != 1 {
                return None;
            }
            if s.get_char(0) != '0' {
                return None;
            }
            let rest = s.substring_char(2, n);
            proof {
                assert(rest@ =~= s@.skip(2));
            }
            match find_char_exec(rest, '.') {
                None => None,
                Some(p) => {
                    proof {
                        lemma_find_char(rest@, '.');
                    }
                    let rn = rest.unicode_len();
                    let tag = rest.substring_char(0, p);
                    let digits = rest.substring_char(p + 1, rn);
                    proof {
                        assert(tag@ =~= rest@.take(p as int));
                        assert(digits@ =~= rest@.skip(p + 1));
                        reveal_strlit("alpha");
                        reveal_strlit("beta");
                        reveal_strlit("rc");
                        reveal_strlit("dev");
                        assert("alpha"@ =~= alpha_tag());
                        assert("beta"@ =~= beta_tag());
                        assert("rc"@ =~= rc_tag());
                        assert("dev"@ =~= dev_tag());
                    }
                    let v = match parse_u64(digits) {
                        Some(v) => v,
                        None => {
                            return None;
                        },
                    };
                    if str_eq(tag, "alpha") {
                        Some(MinorVersion::Alpha(v))
                    } else if str_eq(tag, "beta") {
                        Some(MinorVersion::Beta(v))
                    } else if str_eq(tag, "rc") {
                        Some(MinorVersion::Rc(v))
                    } else if str_eq(tag, "dev") {
                        Some(MinorVersion::Dev(v))
                    } else {
                        None
                    }
                },
            }
        },
    }
}

impl Specific {
    /// Parse a concrete version token such as `"1.4"` or `"2.0-dev.6132"`.
    pub fn parse(s: &str) -> (r: Result<Specific, Error>)
        ensures
            match r {
                Ok(v) => spec_parse_specific(s@) == Some(v),
                Err(e) => spec_parse_specific(s@) is None && e == Error::VersionParse,
            },
    {
        let n = s.unicode_len();
        match find_char_exec(s, '.') {
            None => Err(Error::VersionParse),
            Some(d) => {
                proof {
                    lemma_find_char(s@, '.');
                }
                let major_part = s.substring_char(0, d);
                let minor_part = s.substring_char(d + 1, n);
                proof {
                    assert(major_part@ =~= s@.take(d as int));
                    assert(minor_part@ =~= s@.skip(d + 1));
                }
                match (parse_u64(major_part), parse_minor(minor_part)) {
                    (Some(major), Some(minor)) => Ok(Specific { major, minor }),
                    _ => Err(Error::VersionParse),
                }
            },
        }
    }
}

impl Filter {
    /// Parse a filter token such as `"1"`, `"1.4"` or `"1.0-rc.2"`.
    pub fn parse(s: &str) -> (r: Result<Filter, Error>)
        ensures
            match r {
                Ok(f) => spec_parse_filter(s@) == Some(f),
                Err(e) => spec_parse_filter(s@) is None && e == Error::FilterParse,
            },
    {
        let n = s.unicode_len();
        match find_char_exec(s, '.') {
            None => match parse_u64(s) {
                Some(major) => Ok(Filter { major, minor: None }),
                None => Err(Error::FilterParse),
            },
            Some(d) => {
                proof {
                    lemma_find_char(s@, '.');
                }
                let major_part = s.substring_char(0, d);
                let minor_part = s.substring_char(d + 1, n);
                proof {
                    assert(major_part@ =~= s@.take(d as int));
                    assert(minor_part@ =~= s@.skip(d + 1));
                }
                let major = match parse_u64(major_part) {
                    Some(m) => m,
                    None => {
                        return Err(Error::FilterParse);
                    },
                };
                match parse_minor(minor_part) {
                    Some(MinorVersion::Minor(v)) => Ok(
                        Filter { major, minor: Some(FilterMinor::Minor(v)) },
                    ),
                    Some(MinorVersion::Alpha(v)) => Ok(
                        Filter { major, minor: Some(FilterMinor::Alpha(v)) },
                    ),
                    Some(MinorVersion::Beta(v)) => Ok(
                        Filter { major, minor: Some(FilterMinor::Beta(v)) },
                    ),
                    Some(MinorVersion::Rc(v)) => Ok(
                        Filter { major, minor: Some(FilterMinor::Rc(v)) },
                    ),
                    _ => Err(Error::FilterParse),
                }
            },
        }
    }
}

impl Build {
    /// Parse a build-version token: a concrete version, optionally
    /// followed by `"+"` and nonempty build metadata.
    pub fn parse(s: &str) -> (r: Result<Build, Error>)
        ensures
            match r {
                Ok(b) => spec_parse_build(s@) == Some(b@),
                Err(e) => spec_parse_build(s@) is None && e == Error::VersionParse,
            },
    {
        let n = s.unicode_len();
        match find_char_exec(s, '+') {
            None => match Specific::parse(s) {
                Ok(v) => Ok(Build { specific: v, metadata: None }),
                Err(_) => Err(Error::VersionParse),
            },
            Some(p) => {
                proof {
                    lemma_find_char(s@, '+');
                }
                if p + 1 == n {
                    return Err(Error::VersionParse);
                }
                let front = s.substring_char(0, p);
                let meta = s.substring_char(p + 1, n);
                proof {
                    assert(front@ =~= s@.take(p as int));
                    assert(meta@ =~= s@.skip(p + 1));
                }
                match Specific::parse(front) {
                    Ok(v) => Ok(Build { specific: v, metadata: Some(meta.to_owned()) }),
                    Err(_) => Err(Error::VersionParse),
                }
            },
        }
    }
}

// ---------------------------------------------------------------------
// Display, executable
// ---------------------------------------------------------------------
pub(crate) fn minor_to_text(m: &MinorVersion) -> (r: String)
    ensures
        r@ == minor_token(*m),
{
    proof {
        reveal_strlit("0-alpha.");
        reveal_strlit("0-beta.");
        reveal_strlit("0-rc.");
        reveal_strlit("0-dev.");
    }
    match m {
        MinorVersion::Minor(n) => u64_to_dec(*n),
        MinorVersion::Alpha(n) => {
            let mut s = String::from_str("0-alpha.");
            s.append(u64_to_dec(*n).as_str());
            proof {
                assert(s@ =~= pre_minor_token(alpha_tag(), *n));
            }
            s
        },
        MinorVersion::Beta(n) => {
            let mut s = String::from_str("0-beta.");
            s.append(u64_to_dec(*n).as_str());
            proof {
                assert(s@ =~= pre_minor_token(beta_tag(), *n));
            }
            s
        },
        MinorVersion::Rc(n) => {
            let mut s = String::from_str("0-rc.");
            s.append(u64_to_dec(*n).as_str());
            proof {
                assert(s@ =~= pre_minor_token(rc_tag(), *n));
            }
            s
        },
        MinorVersion::Dev(n) => {
            let mut s = String::from_str("0-dev.");
            s.append(u64_to_dec(*n).as_str());
            proof {
                assert(s@ =~= pre_minor_token(dev_tag(), *n));
            }
            s
        },
    }
}

impl Specific {
    /// The canonical token of this version.
    pub fn to_text(&self) -> (r: String)
        ensures
            r@ == specific_token(*self),
    {
        proof {
            reveal_strlit(".");
        }
        let mut s = u64_to_dec(self.major);
        s.append(".");
        s.append(minor_to_text(&self.minor).as_str());
        proof {
            assert(s@ =~= specific_token(*self));
        }
        s
    }
}

impl Filter {
    /// The canonical token of this filter.
    pub fn to_text(&self) -> (r: String)
        ensures
            r@ == filter_token(*self),
    {
        proof {
            reveal_strlit(".");
        }
        match &self.minor {
            None => u64_to_dec(self.major),
            Some(m) => {
                let lifted = match m {
                    FilterMinor::Minor(n) => MinorVersion::Minor(*n),
                    FilterMinor::Alpha(n) => MinorVersion::Alpha(*n),
                    FilterMinor::Beta(n) => MinorVersion::Beta(*n),
                    FilterMinor::Rc(n) => MinorVersion::Rc(*n),
                };
                assert(lifted == lift_filter_minor(self.minor->Some_0));
                let mut s = u64_to_dec(self.major);
                s.append(".");
                s.append(minor_to_text(&lifted).as_str());
                proof {
                    assert(s@ =~= filter_token(*self));
                }
                s
            },
        }
    }
}

impl Build {
    /// The canonical token of this build version.
    pub fn to_text(&self) -> (r: String)
        ensures
            r@ == build_token(self@),
    {
        proof {
            reveal_strlit("+");
        }
        let mut s = self.specific.to_text();
        match &self.metadata {
            None => s,
            Some(md) => {
                s.append("+");
                s.append(md.as_str());
                proof {
                    assert(s@ =~= build_token(self@));
                }
                s
            },
        }
    }
}

} // verus!
