//! Release channels and user queries: which channel a version or filter
//! belongs to, when a query accepts a version, and the single-token
//! configuration form of a query.

use vstd::prelude::*;

use crate::errors::Error;
use crate::num::{dec_digits, is_digit, lemma_dec_digits_wf};
use crate::strutil::str_eq;
use crate::version::{
    filter_token, lemma_filter_token_round_trip, lift_filter_minor, minor_token,
    spec_filter_matches, spec_parse_filter, Build, Filter, FilterMinor, MinorVersion, Specific,
};

verus! {

/// The release track of a package.
#[derive(Debug, Clone, Copy, PartialEq, Eq, Structural)]
pub enum Channel {
    Stable,
    Nightly,
}

/// The channel a concrete version belongs to: dev builds are nightly,
/// stable minors are stable, and prereleases are stable only for major
/// version 1 (the historical pre-1.0 exception); any other prerelease
/// has no channel yet.
pub open spec fn spec_channel_of_version(v: Specific) -> Result<Channel, Error> {
    match v.minor {
        MinorVersion::Dev(_) => Ok(Channel::Nightly),
        MinorVersion::Minor(_) => Ok(Channel::Stable),
        _ => if v.major == 1 {
            Ok(Channel::Stable)
        } else {
            Err(Error::UnsupportedPrerelease)
        },
    }
}

/// The channel a filter belongs to, by the same rules; an unconstrained
/// minor is stable.
pub open spec fn spec_channel_of_filter(f: Filter) -> Result<Channel, Error> {
    match f.minor {
        None => Ok(Channel::Stable),
        Some(FilterMinor::Minor(_)) => Ok(Channel::Stable),
        Some(_) => if f.major == 1 {
            Ok(Channel::Stable)
        } else {
            Err(Error::UnsupportedPrerelease)
        },
    }
}

pub open spec fn stable_str() -> Seq<char> {
    seq!['s', 't', 'a', 'b', 'l', 'e']
}

pub open spec fn nightly_str() -> Seq<char> {
    seq!['n', 'i', 'g', 'h', 't', 'l', 'y']
}

pub open spec fn spec_channel_str(c: Channel) -> Seq<char> {
    match c {
        Channel::Stable => stable_str(),
        Channel::Nightly => nightly_str(),
    }
}

impl Channel {
    /// The channel of a concrete version.  Nightly exactly for dev
    /// builds; stable exactly for stable minors and for the major-1
    /// prereleases; an error exactly for any other prerelease.
    pub fn from_version(v: &Specific) -> (r: Result<Channel, Error>)
        ensures
            r == spec_channel_of_version(*v),
            (r == Ok::<Channel, Error>(Channel::Nightly)) <==> v.minor is Dev,
            (r == Ok::<Channel, Error>(Channel::Stable)) <==> (v.minor is Minor || ((v.minor is Alpha
                || v.minor is Beta || v.minor is Rc) && v.major == 1)),
            (r is Err) <==> ((v.minor is Alpha || v.minor is Beta || v.minor is Rc) && v.major
                != 1),
            r is Err ==> r == Err::<Channel, Error>(Error::UnsupportedPrerelease),
    {
        match v.minor {
            MinorVersion::Dev(_) => Ok(Channel::Nightly),
            MinorVersion::Minor(_) => Ok(Channel::Stable),
            _ => if v.major == 1 {
                Ok(Channel::Stable)
            } else {
                Err(Error::UnsupportedPrerelease)
            },
        }
    }

    /// The channel a filter selects from, by the same rules.
    pub fn from_filter(f: &Filter) -> (r: Result<Channel, Error>)
        ensures
            r == spec_channel_of_filter(*f),
    {
        match f.minor {
            None => Ok(Channel::Stable),
            Some(FilterMinor::Minor(_)) => Ok(Channel::Stable),
            Some(_) => if f.major == 1 {
                Ok(Channel::Stable)
            } else {
                Err(Error::UnsupportedPrerelease)
            },
        }
    }

    /// The channel's name.
    pub fn as_str(&self) -> (r: &'static str)
        ensures
            r@ == spec_channel_str(*self),
    {
        proof {
            reveal_strlit("stable");
            reveal_strlit("nightly");
            assert("stable"@ =~= stable_str());
            assert("nightly"@ =~= nightly_str());
        }
        match self {
            Channel::Stable => "stable",
            Channel::Nightly => "nightly",
        }
    }
}

/// What the user asked for: a channel, and at most one version filter.
#[derive(Debug, Clone, Copy, PartialEq, Eq, Structural)]
pub struct Query {
    pub channel: Channel,
    pub version: Option<Filter>,
}

/// When a query accepts a build: a filter, if present, decides alone;
/// otherwise the version's own channel must equal the query's channel
/// (and versions without a channel are never accepted).
pub open spec fn spec_query_matches(q: Query, v: Specific) -> bool {
    match q.version {
        Some(f) => spec_filter_matches(f, v),
        None => spec_channel_of_version(v) == Ok::<Channel, Error>(q.channel),
    }
}

pub open spec fn star_token() -> Seq<char> {
    seq!['*']
}

/// The single-token configuration form: a filtered query writes its
/// filter's own token; of the wildcards, nightly writes `"nightly"` and
/// stable writes `"*"`.
pub open spec fn spec_config_value(q: Query) -> Seq<char> {
    match q.version {
        Some(f) => filter_token(f),
        None => if q.channel == Channel::Nightly {
            nightly_str()
        } else {
            star_token()
        },
    }
}

/// The inverse reading: `"*"` and `"nightly"` are the wildcards; any
/// other token must parse as a filter, whose channel is then inferred.
pub open spec fn spec_query_from_token(s: Seq<char>) -> Result<Query, Error> {
    if s == star_token() {
        Ok(Query { channel: Channel::Stable, version: None })
    } else if s == nightly_str() {
        Ok(Query { channel: Channel::Nightly, version: None })
    } else {
        match spec_parse_filter(s) {
            None => Err(Error::FilterParse),
            Some(f) => match spec_channel_of_filter(f) {
                Ok(c) => Ok(Query { channel: c, version: Some(f) }),
                Err(e) => Err(e),
            },
        }
    }
}

pub open spec fn spec_query_from_option(v: Option<Seq<char>>) -> Result<Query, Error> {
    match v {
        None => Ok(Query { channel: Channel::Stable, version: None }),
        Some(s) => if s == nightly_str() {
            Ok(Query { channel: Channel::Nightly, version: None })
        } else {
            match spec_parse_filter(s) {
                None => Err(Error::FilterParse),
                Some(f) => match spec_channel_of_filter(f) {
                    Ok(c) => Ok(Query { channel: c, version: Some(f) }),
                    Err(e) => Err(e),
                },
            }
        },
    }
}

/// An explicit nightly flag forces the filterless nightly query, any
/// version text notwithstanding; without it, version text narrows the
/// stable channel.
pub open spec fn spec_query_from_options(nightly: bool, v: Option<Seq<char>>) -> Result<
    Query,
    Error,
> {
    if nightly {
        Ok(Query { channel: Channel::Nightly, version: None })
    } else {
        match v {
            None => Ok(Query { channel: Channel::Stable, version: None }),
            Some(s) => match spec_parse_filter(s) {
                Some(f) => Ok(Query { channel: Channel::Stable, version: Some(f) }),
                None => Err(Error::FilterParse),
            },
        }
    }
}

/// What a version resolves to as a query: dev builds resolve to the
/// nightly wildcard, every other version to a stable query filtering
/// for exactly its own minor (with the major-1 prerelease exception).
pub open spec fn spec_query_from_version(v: Specific) -> Result<Query, Error> {
    match v.minor {
        MinorVersion::Dev(_) => Ok(Query { channel: Channel::Nightly, version: None }),
        MinorVersion::Minor(n) => Ok(
            Query {
                channel: Channel::Stable,
                version: Some(Filter { major: v.major, minor: Some(FilterMinor::Minor(n)) }),
            },
        ),
        MinorVersion::Alpha(n) => if v.major == 1 {
            Ok(
                Query {
                    channel: Channel::Stable,
                    version: Some(Filter { major: v.major, minor: Some(FilterMinor::Alpha(n)) }),
                },
            )
        } else {
            Err(Error::UnsupportedPrerelease)
        },
        MinorVersion::Beta(n) => if v.major == 1 {
            Ok(
                Query {
                    channel: Channel::Stable,
                    version: Some(Filter { major: v.major, minor: Some(FilterMinor::Beta(n)) }),
                },
            )
        } else {
            Err(Error::UnsupportedPrerelease)
        },
        MinorVersion::Rc(n) => if v.major == 1 {
            Ok(
                Query {
                    channel: Channel::Stable,
                    version: Some(Filter { major: v.major, minor: Some(FilterMinor::Rc(n)) }),
                },
            )
        } else {
            Err(Error::UnsupportedPrerelease)
        },
    }
}

/// The human-readable form: the channel name for a wildcard, otherwise
/// `major.minor` with an unconstrained minor written as `0`.
pub open spec fn spec_query_display(q: Query) -> Seq<char> {
    match q.version {
        None => spec_channel_str(q.channel),
        Some(f) => dec_digits(f.major as nat) + seq!['.'] + (match f.minor {
            None => seq!['0'],
            Some(m) => minor_token(lift_filter_minor(m)),
        }),
    }
}

impl Query {
    /// The nightly wildcard.
    pub fn nightly() -> (q: Query)
        ensures
            q == (Query { channel: Channel::Nightly, version: None }),
    {
        Query { channel: Channel::Nightly, version: None }
    }

    /// Build a query from an explicit nightly flag and optional version
    /// text.  The flag forces the filterless nightly query regardless of
    /// any version text; without it the text, if any, becomes a filter.
    pub fn from_options(nightly: bool, version: &Option<String>) -> (r: Result<Query, Error>)
        ensures
            r == spec_query_from_options(
                nightly,
                match version {
                    Some(s) => Some(s@),
                    None => None,
                },
            ),
    {
        if nightly {
            return Ok(Query { channel: Channel::Nightly, version: None });
        }
        match version {
            None => Ok(Query { channel: Channel::Stable, version: None }),
            Some(s) => match Filter::parse(s.as_str()) {
                Ok(f) => Ok(Query { channel: Channel::Stable, version: Some(f) }),
                Err(_) => Err(Error::FilterParse),
            },
        }
    }

    /// Build a query from optional version text alone: nothing means the
    /// stable wildcard, `"nightly"` the nightly wildcard, anything else
    /// a filter with its inferred channel.
    pub fn from_option(version: &Option<String>) -> (r: Result<Query, Error>)
        ensures
            r == spec_query_from_option(
                match version {
                    Some(s) => Some(s@),
                    None => None,
                },
            ),
    {
        proof {
            reveal_strlit("nightly");
            assert("nightly"@ =~= nightly_str());
        }
        match version {
            None => Ok(Query { channel: Channel::Stable, version: None }),
            Some(s) => {
                if str_eq(s.as_str(), "nightly") {
                    Ok(Query { channel: Channel::Nightly, version: None })
                } else {
                    let f = match Filter::parse(s.as_str()) {
                        Ok(f) => f,
                        Err(_) => {
                            return Err(Error::FilterParse);
                        },
                    };
                    match Channel::from_filter(&f) {
                        Ok(c) => Ok(Query { channel: c, version: Some(f) }),
                        Err(e) => Err(e),
                    }
                }
            },
        }
    }

    /// The query a filter stands for, on the channel it infers.
    pub fn from_filter(f: &Filter) -> (r: Result<Query, Error>)
        ensures
            r == match spec_channel_of_filter(*f) {
                Ok(c) => Ok::<Query, Error>(Query { channel: c, version: Some(*f) }),
                Err(e) => Err::<Query, Error>(e),
            },
    {
        match Channel::from_filter(f) {
            Ok(c) => Ok(Query { channel: c, version: Some(*f) }),
            Err(e) => Err(e),
        }
    }

    /// The query a concrete version stands for.
    pub fn from_version(v: &Specific) -> (r: Result<Query, Error>)
        ensures
            r == spec_query_from_version(*v),
    {
        match v.minor {
            MinorVersion::Dev(_) => Ok(Query::nightly()),
            MinorVersion::Minor(n) => Ok(
                Query {
                    channel: Channel::Stable,
                    version: Some(Filter { major: v.major, minor: Some(FilterMinor::Minor(n)) }),
                },
            ),
            MinorVersion::Alpha(n) => if v.major == 1 {
                Ok(
                    Query {
                        channel: Channel::Stable,
                        version: Some(
                            Filter { major: v.major, minor: Some(FilterMinor::Alpha(n)) },
                        ),
                    },
                )
            } else {
                Err(Error::UnsupportedPrerelease)
            },
            MinorVersion::Beta(n) => if v.major == 1 {
                Ok(
                    Query {
                        channel: Channel::Stable,
                        version: Some(Filter { major: v.major, minor: Some(FilterMinor::Beta(n)) }),
                    },
                )
            } else {
                Err(Error::UnsupportedPrerelease)
            },
            MinorVersion::Rc(n) => if v.major == 1 {
                Ok(
                    Query {
                        channel: Channel::Stable,
                        version: Some(Filter { major: v.major, minor: Some(FilterMinor::Rc(n)) }),
                    },
                )
            } else {
                Err(Error::UnsupportedPrerelease)
            },
        }
    }

    /// Does this query accept the given build?
    pub fn matches(&self, v: &Build) -> (r: bool)
        ensures
            r == spec_query_matches(*self, v.specific),
    {
        match &self.version {
            Some(f) => f.matches(v),
            None => match Channel::from_version(&v.specific()) {
                Ok(c) => c == self.channel,
                Err(_) => false,
            },
        }
    }

    /// The single-token configuration form of this query.
    pub fn as_config_value(&self) -> (r: String)
        ensures
            r@ == spec_config_value(*self),
    {
        proof {
            reveal_strlit("nightly");
            reveal_strlit("*");
            assert("nightly"@ =~= nightly_str());
            assert("*"@ =~= star_token());
        }
        match &self.version {
            Some(f) => f.to_text(),
            None => if matches!(self.channel, Channel::Nightly) {
                String::from_str("nightly")
            } else {
                String::from_str("*")
            },
        }
    }

    /// Read a query back from its configuration token.
    pub fn from_token(s: &str) -> (r: Result<Query, Error>)
        ensures
            r == spec_query_from_token(s@),
    {
        proof {
            reveal_strlit("nightly");
            reveal_strlit("*");
            assert("nightly"@ =~= nightly_str());
            assert("*"@ =~= star_token());
        }
        if str_eq(s, "*") {
            Ok(Query { channel: Channel::Stable, version: None })
        } else if str_eq(s, "nightly") {
            Ok(Query { channel: Channel::Nightly, version: None })
        } else {
            let f = match Filter::parse(s) {
                Ok(f) => f,
                Err(_) => {
                    return Err(Error::FilterParse);
                },
            };
            match Channel::from_filter(&f) {
                Ok(c) => Ok(Query { channel: c, version: Some(f) }),
                Err(e) => Err(e),
            }
        }
    }

    /// The human-readable form of this query.
    pub fn display(&self) -> (r: String)
        ensures
            r@ == spec_query_display(*self),
    {
        proof {
            reveal_strlit(".");
            reveal_strlit("0");
        }
        match &self.version {
            None => String::from_str(self.channel.as_str()),
            Some(f) => {
                let mut s = crate::num::u64_to_dec(f.major);
                s.append(".");
                match &f.minor {
                    None => {
                        s.append("0");
                        proof {
                            assert(s@ =~= spec_query_display(*self));
                        }
                    },
                    Some(m) => {
                        let lifted = match m {
                            FilterMinor::Minor(n) => MinorVersion::Minor(*n),
                            FilterMinor::Alpha(n) => MinorVersion::Alpha(*n),
                            FilterMinor::Beta(n) => MinorVersion::Beta(*n),
                            FilterMinor::Rc(n) => MinorVersion::Rc(*n),
                        };
                        assert(lifted == lift_filter_minor(f.minor->Some_0));
                        let minor_text = crate::version::minor_to_text(&lifted);
                        s.append(minor_text.as_str());
                        proof {
                            assert(s@ =~= spec_query_display(*self));
                        }
                    },
                }
                s
            },
        }
    }
}

/// A query is well formed when its channel agrees with its filter: a
/// filtered query is stable and its filter infers the stable channel.
pub open spec fn query_wf(q: Query) -> bool {
    match q.version {
        None => true,
        Some(f) => q.channel == Channel::Stable && spec_channel_of_filter(f) == Ok::<
            Channel,
            Error,
        >(Channel::Stable),
    }
}

/// A well-formed query round-trips through its configuration token: the
/// token written by `as_config_value` reads back, token for token, as
/// the same query.  (A nightly query that also carries a filter is not
/// well formed: its token is the filter's, which reads back as the
/// stable query the filter infers.)
pub proof fn lemma_query_token_round_trip(q: Query)
    requires
        query_wf(q),
    ensures
        spec_query_from_token(spec_config_value(q)) == Ok::<Query, Error>(q),
{
    let t = spec_config_value(q);
    assert(star_token().len() == 1);
    assert(nightly_str().len() == 7);
    match q.version {
        None => {
            if q.channel == Channel::Nightly {
                assert(t == nightly_str());
                assert(t != star_token());
            } else {
                assert(t == star_token());
                assert(t != nightly_str());
            }
        },
        Some(f) => {
            assert(q.channel == Channel::Stable);
            lemma_dec_digits_wf(f.major as nat);
            assert(is_digit(t[0]));
            assert(!is_digit('*'));
            assert(!is_digit('n'));
            assert(t != star_token());
            assert(t != nightly_str());
            lemma_filter_token_round_trip(f);
        },
    }
}

} // verus!
