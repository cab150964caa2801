//! Published versions of the program, compared by the `versions` crate.
use vstd::prelude::*;

verus! {

/// `versions::Versioning`, carried through as an opaque value.
#[verifier::external_type_specification]
#[verifier::external_body]
pub struct ExVersioning(versions::Versioning);

/// Whether `versions::Versioning::new` accepts the text `s`.
pub uninterp spec fn version_parses(s: Seq<char>) -> bool;

/// Parses a version (`versions::Versioning::new`): it succeeds exactly on
/// the texts named by [`version_parses`]; the parsed value is opaque.
#[verifier::external_body]
fn parse_version(s: &str) -> (r: Option<versions::Versioning>)
    ensures
        r is Some <==> version_parses(s@),
{
    versions::Versioning::new(s)
}

/// Whether the version written `a` is earlier than the version written `b`:
/// what `versions::Versioning::new` of each text, compared by its `<`,
/// gives.
pub uninterp spec fn version_lt_of(a: Seq<char>, b: Seq<char>) -> bool;

/// Whether the version written `a` is earlier than the version written `b`
/// (`versions::Versioning::new` of each, compared by `<`); the result is
/// named [`version_lt_of`], nothing more of it is stated.
#[verifier::external_body]
fn version_lt(a: &str, b: &str) -> (r: bool)
    requires
        version_parses(a@),
        version_parses(b@),
    ensures
        r == version_lt_of(a@, b@),
{
    versions::Versioning::new(a) < versions::Versioning::new(b)
}

/// The name under which the program is published.
pub const CRATE_NAME: &'static str = "short";

/// Why a published version could not be had.
#[derive(Debug)]
pub enum UpdateError {
    /// The text is not a version.
    InvalidVersion(String),
    /// No version was found.
    NoCrateInfo,
}

/// A published version of a crate: its name and the text of its version,
/// which is always a version that `versions` can parse.
#[derive(Debug)]
pub struct CrateInfo {
    name: String,
    vers: String,
}

/// Mathematical model of a [`CrateInfo`]: its name and the text of its
/// version.
pub struct CrateInfoModel {
    pub name: Seq<char>,
    pub vers: Seq<char>,
}

impl View for CrateInfo {
    type V = CrateInfoModel;

    closed spec fn view(&self) -> CrateInfoModel {
        CrateInfoModel { name: self.name@, vers: self.vers@ }
    }
}

impl CrateInfo {
    #[verifier::type_invariant]
    closed spec fn wf(&self) -> bool {
        version_parses(self.vers@)
    }

    /// The crate `name` at the version written `version`; an error when that
    /// text is not a version.
    pub fn from_parts(name: &str, version: &str) -> (r: Result<CrateInfo, UpdateError>)
        ensures
            match r {
                Ok(c) => version_parses(version@) && c@ == (CrateInfoModel {
                    name: name@,
                    vers: version@,
                }),
                Err(e) => !version_parses(version@) && (e matches UpdateError::InvalidVersion(v)
                    && v@ == version@),
            },
    {
        match parse_version(version) {
            Some(_) => Ok(CrateInfo { name: name.to_owned(), vers: version.to_owned() }),
            None => Err(UpdateError::InvalidVersion(version.to_owned())),
        }
    }

    /// This program at the version written `version`; an error when that
    /// text is not a version.
    pub fn new(version: &str) -> (r: Result<CrateInfo, UpdateError>)
        ensures
            match r {
                Ok(c) => version_parses(version@) && c@ == (CrateInfoModel {
                    name: CRATE_NAME@,
                    vers: version@,
                }),
                Err(e) => !version_parses(version@) && (e matches UpdateError::InvalidVersion(v)
                    && v@ == version@),
            },
    {
        CrateInfo::from_parts(CRATE_NAME, version)
    }

    pub fn name(&self) -> (r: &String)
        ensures
            r@ == self@.name,
    {
        &self.name
    }

    /// The text of the version.
    pub fn vers(&self) -> (r: &String)
        ensures
            r@ == self@.vers,
            version_parses(r@),
    {
        proof {
            use_type_invariant(self);
        }
        &self.vers
    }

    /// Whether this version is more recent than the version of `other`, as
    /// `versions` orders them.
    pub fn is_newer_than(&self, other: &CrateInfo) -> (r: bool)
        ensures
            r == version_lt_of(other@.vers, self@.vers),
    {
        proof {
            use_type_invariant(self);
            use_type_invariant(other);
        }
        version_lt(other.vers.as_str(), self.vers.as_str())
    }
}

/// Index of the most recent of the first `n` versions `vers`: the first one
/// that no later one is newer than, as a scan from the first keeps it.
pub open spec fn latest_index(vers: Seq<Seq<char>>, n: int) -> int
    decreases n,
{
    if n <= 1 {
        0
    } else {
        let prev = latest_index(vers, n - 1);
        if version_lt_of(vers[prev], vers[n - 1]) {
            n - 1
        } else {
            prev
        }
    }
}

/// The scan that picks the most recent version looks at every one of them:
/// for `n >= 1`, the version picked among the first `n` is one of them, and
/// none of the versions after it is newer than it (the last one included).
pub proof fn lemma_latest_not_older_than_later(vers: Seq<Seq<char>>, n: int)
    requires
        1 <= n <= vers.len(),
    ensures
        0 <= latest_index(vers, n) < n,
        forall|j: int|
            latest_index(vers, n) < j < n ==> !version_lt_of(vers[latest_index(vers, n)], #[trigger] vers[j]),
    decreases n,
{
    if n > 1 {
        lemma_latest_not_older_than_later(vers, n - 1);
    }
}

/// The texts of the versions of `infos`.
pub open spec fn versions_of(infos: Seq<CrateInfo>) -> Seq<Seq<char>> {
    infos.map_values(|c: CrateInfo| c@.vers)
}

/// The most recent of `infos` (see [`latest_index`]); an error when there
/// is none.
pub fn latest(infos: Vec<CrateInfo>) -> (r: Result<CrateInfo, UpdateError>)
    ensures
        match r {
            Ok(c) => infos@.len() > 0 && c@ == infos@[latest_index(
                versions_of(infos@),
                infos@.len() as int,
            )]@ && forall|j: int|
                latest_index(versions_of(infos@), infos@.len() as int) < j < infos@.len()
                    ==> !version_lt_of(c@.vers, #[trigger] infos@[j]@.vers),
            Err(e) => infos@.len() == 0 && e is NoCrateInfo,
        },
{
    if infos.len() == 0 {
        return Err(UpdateError::NoCrateInfo);
    }
    let ghost vers = versions_of(infos@);
    let mut best: usize = 0;
    let mut i: usize = 1;
    while i < infos.len()
        invariant
            1 <= i <= infos@.len(),
            vers == versions_of(infos@),
            best == latest_index(vers, i as int),
            best < i,
        decreases infos@.len() - i,
    {
        assert(vers[best as int] == infos@[best as int]@.vers);
        assert(vers[i as int] == infos@[i as int]@.vers);
        if infos[i].is_newer_than(&infos[best]) {
            best = i;
        }
        i = i + 1;
    }
    proof {
        lemma_latest_not_older_than_later(vers, infos@.len() as int);
        assert forall|j: int| best < j < infos@.len() implies vers[j] == #[trigger] infos@[j]@.vers by {}
    }
    let ghost all = infos@;
    let mut rest = infos;
    let c = rest.remove(best);
    assert(all[best as int]@ == c@);
    Ok(c)
}

} // verus!
