//! The package index: raw index entries, validation of install
//! references, selection of installable candidates, and the choice of
//! the best match for a query.
//!
//! Fetching is the caller's work: it obtains the index JSON from the
//! URL that [`index_url`] names (driving the fetch machine), decodes it
//! into [`RepositoryData`], and hands the outcome — data or error — to
//! [`get_server_packages`].

use vstd::prelude::*;

use crate::errors::Error;
use crate::fetch::{resolve_reference, resolved_reference};
use crate::hashing::{spec_valid_hash, valid_hash};
use crate::query::{spec_query_matches, Channel, Query};
use crate::strutil::{find_char, find_char_exec, lemma_find_char, str_eq};
use crate::version::{spec_parse_build, spec_specific_le, Build, BuildModel};

verus! {

/// The default package-root URL.  Callers pass the root explicitly, so
/// an environment override is one string read away.
pub const DEFAULT_PACKAGE_ROOT: &'static str = "https://packages.edgedb.com";

/// The basename the server packages carry in the index.
pub open spec fn server_basename() -> Seq<char> {
    "edgedb-server"@
}

/// The kind of artifact a package resolves to.
#[derive(Debug, Clone, Copy, PartialEq, Eq, Structural)]
pub enum PackageType {
    TarZst,
}

impl PackageType {
    /// The file extension of this package type.
    pub fn as_ext(&self) -> (r: &'static str)
        ensures
            r@ == ".tar.zst"@,
    {
        match self {
            PackageType::TarZst => ".tar.zst",
        }
    }
}

/// The verification block of an install reference: declared byte size
/// and optional hash string.
#[derive(Debug, Clone, PartialEq, Eq)]
pub struct Verification {
    pub size: u64,
    pub blake2b: Option<String>,
}

pub ghost struct VerificationModel {
    pub size: u64,
    pub blake2b: Option<Seq<char>>,
}

impl View for Verification {
    type V = VerificationModel;

    open spec fn view(&self) -> VerificationModel {
        VerificationModel {
            size: self.size,
            blake2b: match self.blake2b {
                Some(ref h) => Some(h@),
                None => None,
            },
        }
    }
}

/// One downloadable variant listed for a package version.
#[derive(Debug, Clone, PartialEq, Eq)]
pub struct InstallRef {
    pub path: String,
    pub kind: String,
    pub encoding: Option<String>,
    pub verification: Verification,
}

pub ghost struct InstallRefModel {
    pub path: Seq<char>,
    pub kind: Seq<char>,
    pub encoding: Option<Seq<char>>,
    pub verification: VerificationModel,
}

impl View for InstallRef {
    type V = InstallRefModel;

    open spec fn view(&self) -> InstallRefModel {
        InstallRefModel {
            path: self.path@,
            kind: self.kind@,
            encoding: match self.encoding {
                Some(ref e) => Some(e@),
                None => None,
            },
            verification: self.verification@,
        }
    }
}

/// One raw index entry.
#[derive(Debug, Clone, PartialEq, Eq)]
pub struct PackageData {
    pub basename: String,
    pub version: String,
    pub installrefs: Vec<InstallRef>,
}

pub ghost struct PackageDataModel {
    pub basename: Seq<char>,
    pub version: Seq<char>,
    pub installrefs: Seq<InstallRefModel>,
}

impl View for PackageData {
    type V = PackageDataModel;

    open spec fn view(&self) -> PackageDataModel {
        PackageDataModel {
            basename: self.basename@,
            version: self.version@,
            installrefs: self.installrefs@.map_values(|r: InstallRef| r@),
        }
    }
}

/// The whole fetched index.
#[derive(Debug, Clone, PartialEq, Eq)]
pub struct RepositoryData {
    pub packages: Vec<PackageData>,
}

pub ghost struct RepositoryDataModel {
    pub packages: Seq<PackageDataModel>,
}

impl View for RepositoryData {
    type V = RepositoryDataModel;

    open spec fn view(&self) -> RepositoryDataModel {
        RepositoryDataModel { packages: self.packages@.map_values(|p: PackageData| p@) }
    }
}

/// A package's content hash: a well-formed BLAKE2b string, or an opaque
/// unrecognized form, preserved as given.
#[derive(Debug, Clone, PartialEq, Eq)]
pub enum PackageHash {
    Blake2b(String),
    Unknown(String),
}

pub ghost enum PackageHashModel {
    Blake2b(Seq<char>),
    Unknown(Seq<char>),
}

impl View for PackageHash {
    type V = PackageHashModel;

    open spec fn view(&self) -> PackageHashModel {
        match self {
            PackageHash::Blake2b(v) => PackageHashModel::Blake2b(v@),
            PackageHash::Unknown(v) => PackageHashModel::Unknown(v@),
        }
    }
}

/// The resolved, selected artifact description.
#[derive(Debug, Clone, PartialEq, Eq)]
pub struct PackageInfo {
    pub version: Build,
    pub url: String,
    pub size: u64,
    pub hash: PackageHash,
    pub kind: PackageType,
}

pub ghost struct PackageInfoModel {
    pub version: BuildModel,
    pub url: Seq<char>,
    pub size: u64,
    pub hash: PackageHashModel,
    pub kind: PackageType,
}

impl View for PackageInfo {
    type V = PackageInfoModel;

    open spec fn view(&self) -> PackageInfoModel {
        PackageInfoModel {
            version: self.version@,
            url: self.url@,
            size: self.size,
            hash: self.hash@,
            kind: self.kind,
        }
    }
}

pub open spec fn infos_view(v: Seq<PackageInfo>) -> Seq<PackageInfoModel> {
    v.map_values(|p: PackageInfo| p@)
}

// ---------------------------------------------------------------------
// Selecting install references
// ---------------------------------------------------------------------
/// A qualifying install reference: a tar archive, zstd-encoded, with a
/// well-formed BLAKE2b hash declared.
pub open spec fn ref_qualifies(r: InstallRefModel) -> bool {
    &&& r.kind == "application/x-tar"@
    &&& r.encoding == Some("zstd"@)
    &&& match r.verification.blake2b {
        Some(h) => spec_valid_hash(h),
        None => false,
    }
}

/// The first qualifying reference, if any.
pub open spec fn first_qualifying(refs: Seq<InstallRefModel>) -> Option<int>
    decreases refs.len(),
{
    if refs.len() == 0 {
        None
    } else if ref_qualifies(refs[0]) {
        Some(0)
    } else {
        match first_qualifying(refs.skip(1)) {
            Some(i) => Some(i + 1),
            None => None,
        }
    }
}

proof fn lemma_first_qualifying(refs: Seq<InstallRefModel>)
    ensures
        match first_qualifying(refs) {
            Some(i) => 0 <= i < refs.len() && ref_qualifies(refs[i]) && forall|j: int|
                0 <= j < i ==> !ref_qualifies(#[trigger] refs[j]),
            None => forall|j: int| 0 <= j < refs.len() ==> !ref_qualifies(#[trigger] refs[j]),
        },
    decreases refs.len(),
{
    if refs.len() == 0 {
    } else if ref_qualifies(refs[0]) {
    } else {
        lemma_first_qualifying(refs.skip(1));
        assert(forall|j: int| 1 <= j < refs.len() ==> refs[j] == refs.skip(1)[j - 1]);
    }
}

/// What one index entry resolves to: its first qualifying install
/// reference turned into a `PackageInfo`, or nothing if no reference
/// qualifies, the version string does not parse, or the reference path
/// cannot be resolved against the package root.
pub open spec fn spec_filter_package(root: Seq<char>, pkg: PackageDataModel) -> Option<
    PackageInfoModel,
> {
    match first_qualifying(pkg.installrefs) {
        None => None,
        Some(i) => {
            let r = pkg.installrefs[i];
            match spec_parse_build(pkg.version) {
                None => None,
                Some(b) => match resolved_reference(root, r.path) {
                    None => None,
                    Some(u) => Some(
                        PackageInfoModel {
                            version: b,
                            url: u,
                            size: r.verification.size,
                            hash: PackageHashModel::Blake2b(r.verification.blake2b->Some_0),
                            kind: PackageType::TarZst,
                        },
                    ),
                },
            }
        },
    }
}

fn ref_qualifies_exec(r: &InstallRef) -> (q: bool)
    ensures
        q == ref_qualifies(r@),
{
    if !str_eq(r.kind.as_str(), "application/x-tar") {
        return false;
    }
    match &r.encoding {
        None => false,
        Some(e) => {
            if !str_eq(e.as_str(), "zstd") {
                return false;
            }
            match &r.verification.blake2b {
                None => false,
                Some(h) => valid_hash(h.as_str()),
            }
        },
    }
}

/// Resolve one index entry, dropping it if no reference qualifies.
pub fn filter_package(pkg_root: &str, pkg: &PackageData) -> (r: Option<PackageInfo>)
    ensures
        match r {
            Some(p) => spec_filter_package(pkg_root@, pkg@) == Some(p@),
            None => spec_filter_package(pkg_root@, pkg@) is None,
        },
{
    proof {
        lemma_first_qualifying(pkg@.installrefs);
    }
    let n = pkg.installrefs.len();
    let mut i: usize = 0;
    while i < n
        invariant
            0 <= i <= n,
            n == pkg.installrefs.len(),
            pkg@.installrefs.len() == n,
            forall|j: int| 0 <= j < pkg.installrefs@.len() ==> pkg@.installrefs[j] == #[trigger] pkg.installrefs@[j]@,
            forall|j: int| 0 <= j < i ==> !ref_qualifies(#[trigger] pkg@.installrefs[j]),
            match first_qualifying(pkg@.installrefs) {
                Some(k) => 0 <= k < n && ref_qualifies(pkg@.installrefs[k]) && forall|j: int|
                    0 <= j < k ==> !ref_qualifies(#[trigger] pkg@.installrefs[j]),
                None => forall|j: int|
                    0 <= j < n ==> !ref_qualifies(#[trigger] pkg@.installrefs[j]),
            },
        decreases n - i,
    {
        let rf = &pkg.installrefs[i];
        if ref_qualifies_exec(rf) {
            proof {
                let k = first_qualifying(pkg@.installrefs)->Some_0;
                assert(first_qualifying(pkg@.installrefs) is Some);
                assert(!(k < i) && !(i < k));
            }
            let version = match Build::parse(pkg.version.as_str()) {
                Ok(b) => b,
                Err(_) => {
                    return None;
                },
            };
            let url = match resolve_reference(pkg_root, rf.path.as_str()) {
                Some(u) => u,
                None => {
                    return None;
                },
            };
            let hash = match &rf.verification.blake2b {
                Some(h) => PackageHash::Blake2b(h.clone()),
                None => {
                    assert(false);
                    return None;
                },
            };
            return Some(
                PackageInfo {
                    version,
                    url,
                    size: rf.verification.size,
                    hash,
                    kind: PackageType::TarZst,
                },
            );
        }
        i += 1;
    }
    proof {
        if first_qualifying(pkg@.installrefs) is Some {
            let k = first_qualifying(pkg@.installrefs)->Some_0;
            assert(!ref_qualifies(pkg@.installrefs[k]));
        }
    }
    None
}

// ---------------------------------------------------------------------
// The index
// ---------------------------------------------------------------------
/// The index path for a channel and platform:
/// `/archive/.jsonindexes/{platform}.json`, with `.nightly` inserted for
/// the nightly channel.
pub open spec fn spec_index_path(platform: Seq<char>, channel: Channel) -> Seq<char> {
    "/archive/.jsonindexes/"@ + platform + (match channel {
        Channel::Stable => ".json"@,
        Channel::Nightly => ".nightly.json"@,
    })
}

/// The URL of the package index for a channel, resolved against the
/// package root.
pub fn index_url(pkg_root: &str, platform: &str, channel: Channel) -> (r: Result<String, Error>)
    ensures
        match resolved_reference(pkg_root@, spec_index_path(platform@, channel)) {
            Some(u) => r matches Ok(s) && s@ == u,
            None => r == Err::<String, Error>(Error::InvalidPackageRoot),
        },
{
    let mut path = String::from_str("/archive/.jsonindexes/");
    path.append(platform);
    match channel {
        Channel::Stable => path.append(".json"),
        Channel::Nightly => path.append(".nightly.json"),
    }
    match resolve_reference(pkg_root, path.as_str()) {
        Some(u) => Ok(u),
        None => Err(Error::InvalidPackageRoot),
    }
}

/// The candidates an index holds: entries under the server basename,
/// each resolved through `spec_filter_package`, in index order.
pub open spec fn spec_select_packages(root: Seq<char>, pkgs: Seq<PackageDataModel>) -> Seq<
    PackageInfoModel,
>
    decreases pkgs.len(),
{
    if pkgs.len() == 0 {
        Seq::empty()
    } else {
        let rest = spec_select_packages(root, pkgs.drop_last());
        let last = pkgs.last();
        if last.basename == server_basename() {
            match spec_filter_package(root, last) {
                Some(p) => rest.push(p),
                None => rest,
            }
        } else {
            rest
        }
    }
}

pub open spec fn hash_is_valid_blake2b(h: PackageHashModel) -> bool {
    match h {
        PackageHashModel::Blake2b(s) => spec_valid_hash(s),
        PackageHashModel::Unknown(_) => false,
    }
}

/// Selection only ever constructs a package from a qualifying install
/// reference, so every selected package carries a well-formed BLAKE2b
/// hash — never a defaulted or unknown one.
pub proof fn lemma_selected_hashes_valid(root: Seq<char>, pkgs: Seq<PackageDataModel>)
    ensures
        forall|k: int|
            0 <= k < spec_select_packages(root, pkgs).len() ==> hash_is_valid_blake2b(
                (#[trigger] spec_select_packages(root, pkgs)[k]).hash,
            ),
    decreases pkgs.len(),
{
    if pkgs.len() > 0 {
        lemma_selected_hashes_valid(root, pkgs.drop_last());
        let sel = spec_select_packages(root, pkgs);
        let prev = spec_select_packages(root, pkgs.drop_last());
        let last = pkgs.last();
        if last.basename == server_basename() {
            match spec_filter_package(root, last) {
                Some(p) => {
                    lemma_first_qualifying(last.installrefs);
                    assert(sel == prev.push(p));
                    assert forall|k: int|
                        0 <= k < sel.len() implies hash_is_valid_blake2b(
                        (#[trigger] sel[k]).hash,
                    ) by {
                        if k < prev.len() {
                            assert(sel[k] == prev[k]);
                        } else {
                            assert(sel[k] == p);
                        }
                    }
                },
                None => {},
            }
        }
    }
}

/// Turn one fetched index outcome into the candidate list.  A not-found
/// fetch means the platform has no such index and yields the empty list;
/// any other fetch error propagates; fetched data is filtered to valid
/// server packages.
pub fn get_server_packages(pkg_root: &str, fetched: Result<RepositoryData, Error>) -> (r: Result<
    Vec<PackageInfo>,
    Error,
>)
    ensures
        match fetched {
            Err(e) => if e == Error::NotFound {
                r matches Ok(v) && infos_view(v@) == Seq::<PackageInfoModel>::empty()
            } else {
                r == Err::<Vec<PackageInfo>, Error>(e)
            },
            Ok(data) => r matches Ok(v) && infos_view(v@) == spec_select_packages(
                pkg_root@,
                data@.packages,
            ),
        },
{
    let data = match fetched {
        Err(Error::NotFound) => {
            let out: Vec<PackageInfo> = Vec::new();
            proof {
                assert(infos_view(out@) =~= Seq::<PackageInfoModel>::empty());
            }
            return Ok(out);
        },
        Err(e) => {
            return Err(e);
        },
        Ok(data) => data,
    };
    let n = data.packages.len();
    let mut out: Vec<PackageInfo> = Vec::new();
    let mut i: usize = 0;
    proof {
        assert(infos_view(out@) =~= spec_select_packages(pkg_root@, data@.packages.take(0)));
    }
    while i < n
        invariant
            0 <= i <= n,
            n == data.packages.len(),
            data@.packages.len() == n,
            forall|j: int| 0 <= j < n ==> data@.packages[j] == #[trigger] data.packages@[j]@,
            infos_view(out@) == spec_select_packages(pkg_root@, data@.packages.take(i as int)),
        decreases n - i,
    {
        let pkg = &data.packages[i];
        proof {
            assert(data@.packages.take(i + 1).drop_last() =~= data@.packages.take(i as int));
            assert(data@.packages.take(i + 1).last() == data@.packages[i as int]);
        }
        if str_eq(pkg.basename.as_str(), "edgedb-server") {
            match filter_package(pkg_root, pkg) {
                Some(p) => {
                    out.push(p);
                    proof {
                        assert(infos_view(out@) =~= spec_select_packages(
                            pkg_root@,
                            data@.packages.take(i + 1),
                        ));
                    }
                },
                None => {
                    proof {
                        assert(infos_view(out@) =~= spec_select_packages(
                            pkg_root@,
                            data@.packages.take(i + 1),
                        ));
                    }
                },
            }
        } else {
            proof {
                assert(infos_view(out@) =~= spec_select_packages(
                    pkg_root@,
                    data@.packages.take(i + 1),
                ));
            }
        }
        i += 1;
    }
    proof {
        assert(data@.packages.take(n as int) =~= data@.packages);
    }
    Ok(out)
}

// ---------------------------------------------------------------------
// Choosing the best match
// ---------------------------------------------------------------------
/// The index of the package a query resolves to: among the candidates
/// the query accepts, the one with the greatest version, the later entry
/// winning ties.
pub open spec fn spec_best_index(q: Query, pkgs: Seq<PackageInfoModel>) -> Option<int>
    decreases pkgs.len(),
{
    if pkgs.len() == 0 {
        None
    } else {
        let prev = spec_best_index(q, pkgs.drop_last());
        let last = pkgs.last();
        if spec_query_matches(q, last.version.specific) {
            match prev {
                None => Some(pkgs.len() - 1),
                Some(j) => if spec_specific_le(pkgs[j].version.specific, last.version.specific) {
                    Some(pkgs.len() - 1)
                } else {
                    Some(j)
                },
            }
        } else {
            prev
        }
    }
}

/// The chosen index always points at an accepted candidate of maximal
/// version, and exists whenever any candidate is accepted.
pub proof fn lemma_best_index(q: Query, pkgs: Seq<PackageInfoModel>)
    ensures
        match spec_best_index(q, pkgs) {
            Some(i) => 0 <= i < pkgs.len() && spec_query_matches(q, pkgs[i].version.specific)
                && forall|j: int|
                0 <= j < pkgs.len() && spec_query_matches(
                    q,
                    #[trigger] pkgs[j].version.specific,
                ) ==> spec_specific_le(pkgs[j].version.specific, pkgs[i].version.specific),
            None => forall|j: int|
                0 <= j < pkgs.len() ==> !spec_query_matches(q, #[trigger] pkgs[j].version.specific),
        },
    decreases pkgs.len(),
{
    if pkgs.len() > 0 {
        lemma_best_index(q, pkgs.drop_last());
        assert(forall|j: int| 0 <= j < pkgs.len() - 1 ==> pkgs[j] == pkgs.drop_last()[j]);
        match spec_best_index(q, pkgs) {
            Some(i) => {
                assert forall|j: int|
                    0 <= j < pkgs.len() && spec_query_matches(
                        q,
                        #[trigger] pkgs[j].version.specific,
                    ) implies spec_specific_le(
                    pkgs[j].version.specific,
                    pkgs[i].version.specific,
                ) by {
                    if j < pkgs.len() - 1 {
                        assert(pkgs[j] == pkgs.drop_last()[j]);
                    }
                }
            },
            None => {},
        }
    }
}

/// Pick the best accepted candidate for a query: `None` when nothing the
/// query accepts is in the list, otherwise the accepted candidate with
/// the greatest version (the later of equals).
pub fn get_server_package(query: &Query, packages: &Vec<PackageInfo>) -> (r: Option<PackageInfo>)
    ensures
        match (r, spec_best_index(*query, infos_view(packages@))) {
            (Some(p), Some(i)) => p@ == infos_view(packages@)[i],
            (None, None) => true,
            _ => false,
        },
        r is None ==> forall|j: int|
            0 <= j < packages@.len() ==> !spec_query_matches(
                *query,
                (#[trigger] packages@[j])@.version.specific,
            ),
        r matches Some(p) ==> spec_query_matches(*query, p@.version.specific) && forall|j: int|
            0 <= j < packages@.len() && spec_query_matches(
                *query,
                (#[trigger] packages@[j])@.version.specific,
            ) ==> spec_specific_le(packages@[j]@.version.specific, p@.version.specific),
{
    let ghost model = infos_view(packages@);
    proof {
        lemma_best_index(*query, model);
        assert(forall|j: int| 0 <= j < packages@.len() ==> model[j] == (#[trigger] packages@[j])@);
    }
    let n = packages.len();
    let mut best: Option<usize> = None;
    let mut i: usize = 0;
    proof {
        assert(model.take(0) =~= Seq::<PackageInfoModel>::empty());
    }
    while i < n
        invariant
            0 <= i <= n,
            n == packages.len(),
            model == infos_view(packages@),
            model.len() == n,
            forall|j: int| 0 <= j < n ==> model[j] == (#[trigger] packages@[j])@,
            match best {
                Some(b) => b < i && spec_best_index(*query, model.take(i as int)) == Some(b as int),
                None => spec_best_index(*query, model.take(i as int)) is None,
            },
        decreases n - i,
    {
        let pkg = &packages[i];
        proof {
            assert(model.take(i + 1).drop_last() =~= model.take(i as int));
            assert(model.take(i + 1).last() == model[i as int]);
            assert(forall|j: int| 0 <= j < i ==> model.take(i as int)[j] == model[j]);
        }
        if query.matches(&pkg.version) {
            match best {
                None => {
                    best = Some(i);
                },
                Some(b) => {
                    let cur = &packages[b];
                    if cur.version.specific.le(&pkg.version.specific) {
                        best = Some(i);
                    }
                },
            }
        }
        i += 1;
    }
    proof {
        assert(model.take(n as int) =~= model);
    }
    match best {
        Some(b) => Some(packages[b].duplicate()),
        None => None,
    }
}

// ---------------------------------------------------------------------
// Hash strings and cache names
// ---------------------------------------------------------------------
pub open spec fn blake2b_prefix() -> Seq<char> {
    "blake2b:"@
}

/// The textual form of a hash: BLAKE2b hashes carry their prefix,
/// unknown forms are preserved as given.
pub open spec fn spec_hash_to_text(h: PackageHashModel) -> Seq<char> {
    match h {
        PackageHashModel::Blake2b(v) => blake2b_prefix() + v,
        PackageHashModel::Unknown(v) => v,
    }
}

/// Reading a hash string back: a `blake2b:` prefix demands exactly 128
/// further characters; anything else is kept opaque.
pub open spec fn spec_hash_from_text(s: Seq<char>) -> Result<PackageHashModel, Error> {
    if s.len() >= 8 && s.take(8) == blake2b_prefix() {
        if s.len() == 136 {
            Ok(PackageHashModel::Blake2b(s.skip(8)))
        } else {
            Err(Error::InvalidHashFormat)
        }
    } else {
        Ok(PackageHashModel::Unknown(s))
    }
}

/// The short form of a hash: its first seven characters, skipping any
/// `name:` prefix of an unknown form.
pub open spec fn spec_hash_short(h: PackageHashModel) -> Seq<char> {
    match h {
        PackageHashModel::Blake2b(v) => v.take(7),
        PackageHashModel::Unknown(v) => {
            let start: int = match find_char(v, ':') {
                Some(i) => i + 1,
                None => 0,
            };
            let rest = v.skip(start);
            rest.take(
                if rest.len() < 7 {
                    rest.len() as int
                } else {
                    7
                },
            )
        },
    }
}

impl PackageHash {
    /// A well-formed hash value: the BLAKE2b form always holds exactly
    /// 128 characters.
    pub open spec fn wf(&self) -> bool {
        match self {
            PackageHash::Blake2b(v) => v@.len() == 128,
            PackageHash::Unknown(_) => true,
        }
    }

    /// The textual form, as written into configuration.
    pub fn to_text(&self) -> (r: String)
        ensures
            r@ == spec_hash_to_text(self@),
    {
        match self {
            PackageHash::Blake2b(v) => {
                let mut s = String::from_str("blake2b:");
                s.append(v.as_str());
                s
            },
            PackageHash::Unknown(v) => v.clone(),
        }
    }

    /// Read a hash string back; inverse of `to_text` for well-formed
    /// values that are not unknown forms under a `blake2b:` prefix.
    pub fn from_text(s: &str) -> (r: Result<PackageHash, Error>)
        ensures
            match r {
                Ok(h) => spec_hash_from_text(s@) == Ok::<PackageHashModel, Error>(h@) && h.wf(),
                Err(e) => spec_hash_from_text(s@) == Err::<PackageHashModel, Error>(e),
            },
    {
        let n = s.unicode_len();
        if n >= 8 {
            let prefix = s.substring_char(0, 8);
            proof {
                assert(prefix@ =~= s@.take(8));
            }
            if str_eq(prefix, "blake2b:") {
                if n != 136 {
                    return Err(Error::InvalidHashFormat);
                }
                let rest = s.substring_char(8, n);
                proof {
                    assert(rest@ =~= s@.skip(8));
                }
                return Ok(PackageHash::Blake2b(rest.to_owned()));
            }
        }
        Ok(PackageHash::Unknown(s.to_owned()))
    }

    /// The short form shown in file names.
    pub fn short(&self) -> (r: &str)
        requires
            self.wf(),
        ensures
            r@ == spec_hash_short(self@),
    {
        match self {
            PackageHash::Blake2b(v) => {
                let r = v.as_str().substring_char(0, 7);
                proof {
                    assert(r@ =~= spec_hash_short(self@));
                }
                r
            },
            PackageHash::Unknown(v) => {
                let n = v.as_str().unicode_len();
                proof {
                    lemma_find_char(v@, ':');
                }
                let start: usize = match find_char_exec(v.as_str(), ':') {
                    Some(i) => i + 1,
                    None => 0,
                };
                let rest_len = n - start;
                let take_n: usize = if rest_len < 7 {
                    rest_len
                } else {
                    7
                };
                let r = v.as_str().substring_char(start, start + take_n);
                proof {
                    assert(r@ =~= spec_hash_short(self@));
                }
                r
            },
        }
    }
}

/// Left-aligned padding to seven characters, as the cache name uses.
pub open spec fn pad7(s: Seq<char>) -> Seq<char> {
    if s.len() >= 7 {
        s
    } else {
        s + Seq::new((7 - s.len()) as nat, |i: int| ' ')
    }
}

/// The file name an artifact is cached under:
/// `edgedb-server_{version}_{short hash, padded}{extension}`.
pub open spec fn spec_cache_file_name(p: PackageInfoModel) -> Seq<char> {
    "edgedb-server_"@ + crate::version::build_token(p.version) + "_"@ + pad7(
        spec_hash_short(p.hash),
    ) + ".tar.zst"@
}

impl PackageInfo {
    /// The file name this artifact is cached under.
    pub fn cache_file_name(&self) -> (r: String)
        requires
            self.hash.wf(),
        ensures
            r@ == spec_cache_file_name(self@),
    {
        proof {
            reveal_strlit(" ");
        }
        let mut s = String::from_str("edgedb-server_");
        s.append(self.version.to_text().as_str());
        s.append("_");
        let short = self.hash.short();
        s.append(short);
        let ghost base = "edgedb-server_"@ + crate::version::build_token(self.version@) + "_"@
            + short@;
        let ghost len0 = short@.len();
        let mut k = short.unicode_len();
        proof {
            assert(s@ =~= base + Seq::new(((k as nat) - len0) as nat, |i: int| ' '));
        }
        while k < 7
            invariant
                len0 <= k,
                len0 < 7 ==> k <= 7,
                len0 >= 7 ==> k == len0,
                s@ == base + Seq::new(((k as nat) - len0) as nat, |i: int| ' '),
            decreases 7 - k,
        {
            s.append(" ");
            k += 1;
            proof {
                reveal_strlit(" ");
                assert(" "@ =~= seq![' ']);
                assert(s@ =~= base + Seq::new(((k as nat) - len0) as nat, |i: int| ' '));
            }
        }
        s.append(self.kind.as_ext());
        proof {
            assert(s@ =~= spec_cache_file_name(self@));
        }
        s
    }

    /// An owned copy whose contract carries the value across (the
    /// derived clone has no specification).
    fn duplicate(&self) -> (r: PackageInfo)
        ensures
            r@ == self@,
    {
        let version = Build {
            specific: self.version.specific,
            metadata: match &self.version.metadata {
                Some(m) => Some(m.clone()),
                None => None,
            },
        };
        let hash = match &self.hash {
            PackageHash::Blake2b(v) => PackageHash::Blake2b(v.clone()),
            PackageHash::Unknown(v) => PackageHash::Unknown(v.clone()),
        };
        PackageInfo {
            version,
            url: self.url.clone(),
            size: self.size,
            hash,
            kind: self.kind,
        }
    }
}

} // verus!
