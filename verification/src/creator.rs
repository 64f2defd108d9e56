//! Branch Creator: derives a branch name for an issue, checks it against
//! the known branches, and describes the branch the version-control
//! collaborator is to create.

use vstd::prelude::*;
use vstd::string::*;
use crate::config::ConfigStore;
use crate::text::str_eq;

verus! {

/// Failure of a branch creation.
#[derive(Clone, Copy, Debug, PartialEq, Eq, Structural)]
pub enum CreateError {
    /// The issue identifier was empty.
    InvalidIssue,
    /// The derived name collides with an existing branch.
    BranchExists,
    /// The branch was created locally but pushing it failed; local creation
    /// is not rolled back.
    PushFailed,
}

/// The work item a branch is created for; an empty `issue_type` asks for
/// the default naming template.
pub struct IssueRef {
    pub issue_id: String,
    pub issue_type: String,
}

/// What the version-control collaborator is asked to create: a branch of
/// this name, from this base ref, pushed (with upstream tracking) or not.
pub struct NewBranchSpec {
    pub name: String,
    pub base_ref: String,
    pub push: bool,
}

/// The configuration key naming the template for an issue type; an empty
/// type reads the default template's key.
pub open spec fn naming_key(ty: Seq<char>) -> Seq<char> {
    if ty.len() == 0 {
        "branch.naming.default"@
    } else {
        "branch.naming."@ + ty
    }
}

/// The derived branch name: the configured template as prefix when the key
/// is set and non-empty, the issue type itself as prefix when unconfigured,
/// and the bare issue identifier when both are empty.
pub open spec fn spec_derived_name(issue: Seq<char>, ty: Seq<char>, store: ConfigStore) -> Seq<
    char,
> {
    match store.spec_get(naming_key(ty)) {
        Some(t) => if t.len() == 0 {
            issue
        } else {
            t + "/"@ + issue
        },
        None => if ty.len() == 0 {
            issue
        } else {
            ty + "/"@ + issue
        },
    }
}

/// Whether a name is already taken by a known branch.
pub open spec fn branch_known(existing: Seq<String>, name: Seq<char>) -> bool {
    exists|i: int| 0 <= i < existing.len() && existing[i]@ == name
}

/// The whole creation decision: reject an empty issue, reject a name
/// collision, otherwise the derived name, the configured base ref and the
/// push flag.
pub open spec fn spec_create(
    issue: Seq<char>,
    ty: Seq<char>,
    push: bool,
    store: ConfigStore,
    existing: Seq<String>,
) -> Result<(Seq<char>, Seq<char>, bool), CreateError> {
    if issue.len() == 0 {
        Err(CreateError::InvalidIssue)
    } else if branch_known(existing, spec_derived_name(issue, ty, store)) {
        Err(CreateError::BranchExists)
    } else {
        Ok((spec_derived_name(issue, ty, store), store.spec_resolve("branch.base"@), push))
    }
}

/// Everything `create` promises of its result: it mirrors the creation
/// decision exactly, value for value and error for error.
pub open spec fn create_post(
    issue: Seq<char>,
    ty: Seq<char>,
    push: bool,
    store: ConfigStore,
    existing: Seq<String>,
    r: Result<NewBranchSpec, CreateError>,
) -> bool {
    match r {
        Ok(s) => spec_create(issue, ty, push, store, existing) == Ok::<
            (Seq<char>, Seq<char>, bool),
            CreateError,
        >((s.name@, s.base_ref@, s.push)),
        Err(e) => spec_create(issue, ty, push, store, existing) == Err::<
            (Seq<char>, Seq<char>, bool),
            CreateError,
        >(e),
    }
}

/// Derives the branch name for an issue and type from the configured
/// naming templates.
pub fn derive_name(issue: &str, ty: &str, store: &ConfigStore) -> (r: String)
    ensures
        r@ == spec_derived_name(issue@, ty@, *store),
{
    let key: String = if ty.is_empty() {
        String::from_str("branch.naming.default")
    } else {
        String::from_str("branch.naming.").concat(ty)
    };
    proof {
        assert(key@ == naming_key(ty@));
    }
    match store.get(key.as_str()) {
        Some(t) => {
            if t.as_str().is_empty() {
                issue.to_owned()
            } else {
                t.concat("/").concat(issue)
            }
        },
        None => {
            if ty.is_empty() {
                issue.to_owned()
            } else {
                ty.to_owned().concat("/").concat(issue)
            }
        },
    }
}

/// Decides a branch creation: an empty issue is rejected even though the
/// command layer already refuses it, a derived name colliding with a known
/// branch is rejected, and otherwise the new branch's description is
/// returned for the version-control collaborator to act on.
pub fn create(
    issue: &IssueRef,
    push: bool,
    store: &ConfigStore,
    existing: &Vec<String>,
) -> (r: Result<NewBranchSpec, CreateError>)
    ensures
        create_post(issue.issue_id@, issue.issue_type@, push, *store, existing@, r),
{
    if issue.issue_id.as_str().is_empty() {
        return Err(CreateError::InvalidIssue);
    }
    let name = derive_name(issue.issue_id.as_str(), issue.issue_type.as_str(), store);
    let mut i: usize = 0;
    while i < existing.len()
        invariant
            i <= existing@.len(),
            issue.issue_id@.len() > 0,
            name@ == spec_derived_name(issue.issue_id@, issue.issue_type@, *store),
            forall|j: int| 0 <= j < i ==> existing@[j]@ != name@,
        decreases existing@.len() - i,
    {
        if str_eq(existing[i].as_str(), name.as_str()) {
            proof {
                assert(existing@[i as int]@ == name@);
                assert(branch_known(existing@, name@));
            }
            return Err(CreateError::BranchExists);
        }
        i += 1;
    }
    proof {
        assert(!branch_known(existing@, name@));
    }
    let base_ref = store.get_or_default("branch.base");
    Ok(NewBranchSpec { name, base_ref, push })
}

/// Creating a branch for the same issue twice is collision-safe: once a
/// first call has succeeded and its branch has joined the known branches, a
/// repeat of the same call reports `BranchExists` rather than overwriting.
pub proof fn lemma_create_collides_after_success(
    issue: Seq<char>,
    ty: Seq<char>,
    push1: bool,
    push2: bool,
    store: ConfigStore,
    existing: Seq<String>,
    created: String,
)
    requires
        issue.len() > 0,
        !branch_known(existing, spec_derived_name(issue, ty, store)),
        created@ == spec_derived_name(issue, ty, store),
    ensures
        spec_create(issue, ty, push1, store, existing) is Ok,
        spec_create(issue, ty, push2, store, existing.push(created)) == Err::<
            (Seq<char>, Seq<char>, bool),
            CreateError,
        >(CreateError::BranchExists),
{
    let grown = existing.push(created);
    assert(grown[existing.len() as int]@ == spec_derived_name(issue, ty, store));
    assert(branch_known(grown, spec_derived_name(issue, ty, store)));
}

} // verus!
