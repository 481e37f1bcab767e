//! Cloud instance data, instance-name parsing, and the decision step of
//! the creation-wait loop.  The cloud API calls themselves are the
//! caller's work: it fetches an instance's state and hands it to
//! [`CloudInstance::wait_step`] to learn what to do next.

use vstd::prelude::*;

use crate::strutil::{find_char, find_char_exec, lemma_find_char, str_eq};

verus! {

/// An instance as the cloud API reports it.
#[derive(Debug, Clone, PartialEq, Eq)]
pub struct CloudInstance {
    pub id: String,
    pub name: String,
    pub dsn: String,
    pub status: String,
    pub tls_ca: Option<String>,
    pub org_slug: String,
}

/// An organization as the cloud API reports it.
#[derive(Debug, Clone, PartialEq, Eq)]
pub struct Org {
    pub id: String,
    pub name: String,
    pub slug: String,
}

/// The creation request body.
#[derive(Debug, Clone, PartialEq, Eq)]
pub struct CloudInstanceCreate {
    pub name: String,
    pub org_slug: String,
}

/// A qualified instance name.
#[derive(Debug, Clone, PartialEq, Eq)]
pub struct InstanceName {
    pub instance_name: String,
    pub org_slug: String,
}

/// Why an instance name fails to split into organization and instance.
#[derive(Debug, Clone, Copy, PartialEq, Eq, Structural)]
pub enum InstanceNameError {
    /// The name, or its organization part, is empty.
    EmptyName,
    /// No separator: the name is not of the form `ORG/INST`.
    NoSeparator,
    /// Nothing follows the separator.
    MissingInstance,
}

/// How a name splits at its first `/`: the part before is the
/// organization, everything after (further slashes included) the
/// instance; both must be nonempty.
pub open spec fn spec_split_instance_name(s: Seq<char>) -> Result<
    (Seq<char>, Seq<char>),
    InstanceNameError,
> {
    match find_char(s, '/') {
        None => if s.len() == 0 {
            Err(InstanceNameError::EmptyName)
        } else {
            Err(InstanceNameError::NoSeparator)
        },
        Some(i) => if i == 0 {
            Err(InstanceNameError::EmptyName)
        } else if i + 1 == s.len() {
            Err(InstanceNameError::MissingInstance)
        } else {
            Ok((s.take(i), s.skip(i + 1)))
        },
    }
}

/// Split a qualified cloud instance name into its organization and
/// instance parts.
pub fn split_cloud_instance_name(name: &str) -> (r: Result<(String, String), InstanceNameError>)
    ensures
        match r {
            Ok((org, inst)) => spec_split_instance_name(name@) == Ok::<
                (Seq<char>, Seq<char>),
                InstanceNameError,
            >((org@, inst@)),
            Err(e) => spec_split_instance_name(name@) == Err::<
                (Seq<char>, Seq<char>),
                InstanceNameError,
            >(e),
        },
{
    let n = name.unicode_len();
    match find_char_exec(name, '/') {
        None => if n == 0 {
            Err(InstanceNameError::EmptyName)
        } else {
            Err(InstanceNameError::NoSeparator)
        },
        Some(i) => {
            proof {
                lemma_find_char(name@, '/');
            }
            if i == 0 {
                Err(InstanceNameError::EmptyName)
            } else if i + 1 == n {
                Err(InstanceNameError::MissingInstance)
            } else {
                let org = name.substring_char(0, i);
                let inst = name.substring_char(i + 1, n);
                proof {
                    assert(org@ =~= name@.take(i as int));
                    assert(inst@ =~= name@.skip(i + 1));
                }
                Ok((org.to_owned(), inst.to_owned()))
            }
        },
    }
}

/// One decision of the creation-wait loop.
#[derive(Debug, Clone, Copy, PartialEq, Eq, Structural)]
pub enum WaitDecision {
    /// The instance has its DSN: creation is over.
    Ready,
    /// The instance reports a status creation cannot recover from.
    Failed,
    /// Fetch the instance state again, after the polling pause if the
    /// instance is still being created.
    Poll { sleep: bool },
}

/// The decision the wait loop takes on one observed instance state: a
/// nonempty DSN means ready; a status other than `available` or
/// `creating` means failure; otherwise poll again, pausing first while
/// the instance is still `creating`.
pub open spec fn spec_wait_step(dsn: Seq<char>, status: Seq<char>) -> WaitDecision {
    if dsn.len() > 0 {
        WaitDecision::Ready
    } else if status != "available"@ && status != "creating"@ {
        WaitDecision::Failed
    } else {
        WaitDecision::Poll { sleep: status == "creating"@ }
    }
}

impl CloudInstance {
    /// What the creation-wait loop does with this observed state.
    pub fn wait_step(&self) -> (r: WaitDecision)
        ensures
            r == spec_wait_step(self.dsn@, self.status@),
    {
        if self.dsn.unicode_len() > 0 {
            WaitDecision::Ready
        } else if !str_eq(self.status.as_str(), "available") && !str_eq(
            self.status.as_str(),
            "creating",
        ) {
            WaitDecision::Failed
        } else {
            WaitDecision::Poll { sleep: str_eq(self.status.as_str(), "creating") }
        }
    }
}

} // verus!
