//! Small helpers shared by the retrieval flow: trailing-separator trimming,
//! identity validation and registry-name validation.

use crate::errors::RetrievalError;
use vstd::prelude::*;

verus! {

/// Character-for-character equality of two string slices.
pub fn str_eq(a: &str, b: &str) -> (r: bool)
    ensures
        r == (a@ == b@),
{
    let n = a.unicode_len();
    if n != b.unicode_len() {
        return false;
    }
    let mut i: usize = 0;
    while i < n
        invariant
            i <= n,
            n == a@.len(),
            n == b@.len(),
            forall|k: int| 0 <= k < i ==> a@[k] == b@[k],
        decreases n - i,
    {
        if a.get_char(i) != b.get_char(i) {
            return false;
        }
        i += 1;
    }
    assert(a@ =~= b@);
    true
}

/// A model identity is valid when it carries exactly one of a unique id,
/// or a name together with a version; the other must be fully absent.
pub open spec fn valid_identity(
    name: &Option<String>,
    version: &Option<String>,
    uid: &Option<String>,
) -> bool {
    ||| (uid is Some && name is None && version is None)
    ||| (uid is None && name is Some && version is Some)
}

/// Checks a model identity, before any network call is made.
///
/// Accepts exactly the identities that `valid_identity` allows and fails
/// with `RetrievalError::InvalidIdentity` on every other combination.
pub fn check_args(
    name: &Option<String>,
    version: &Option<String>,
    uid: &Option<String>,
) -> (r: Result<(), RetrievalError>)
    ensures
        r is Ok <==> valid_identity(name, version, uid),
        r matches Err(e) ==> e is InvalidIdentity,
{
    let id_only = uid.is_some() && name.is_none() && version.is_none();
    let name_version = uid.is_none() && name.is_some() && version.is_some();
    if id_only || name_version {
        Ok(())
    } else {
        Err(RetrievalError::InvalidIdentity)
    }
}

/// The registry names the listing command accepts.
pub open spec fn valid_registry(r: Seq<char>) -> bool {
    ||| r == "data"@
    ||| r == "model"@
    ||| r == "run"@
    ||| r == "pipeline"@
    ||| r == "audit"@
    ||| r == "project"@
}

/// Checks a registry name against the fixed list of known registries,
/// returning the offending name on failure.
pub fn validate_registry(registry: &str) -> (r: Result<(), String>)
    ensures
        r is Ok <==> valid_registry(registry@),
{
    if str_eq(registry, "data") || str_eq(registry, "model") || str_eq(registry, "run")
        || str_eq(registry, "pipeline") || str_eq(registry, "audit")
        || str_eq(registry, "project") {
        Ok(())
    } else {
        Err(registry.to_owned())
    }
}

/// Removes one trailing `suffix` character from `s` if it is there,
/// and returns `s` unchanged otherwise.
pub fn remove_suffix(s: &str, suffix: char) -> (r: String)
    ensures
        s@.len() > 0 && s@.last() == suffix ==> r@ == s@.drop_last(),
        !(s@.len() > 0 && s@.last() == suffix) ==> r@ == s@,
{
    let n = s.unicode_len();
    if n > 0 && s.get_char(n - 1) == suffix {
        let t = s.substring_char(0, n - 1);
        assert(t@ =~= s@.drop_last());
        t.to_owned()
    } else {
        s.to_owned()
    }
}

} // verus!
