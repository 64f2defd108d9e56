//! Pure command dispatch: one subcommand request, together with the
//! collaborators' answers (the configuration store, the branch inventory,
//! the current checkout, the known branch names), in; one typed result out.
//! The command layer parses arguments into a `Request` and carries the
//! `Response` back to the version-control and issue-tracker collaborators.

use vstd::prelude::*;
use crate::branch::{Branch, CleanScope};
use crate::config::{ConfigEntry, ConfigError, ConfigScope, ConfigStore, list_matches, set_post};
use crate::creator::{CreateError, IssueRef, NewBranchSpec, create, create_post};
use crate::init::{InitError, init, init_post};
use crate::planner::{CleanupFilter, CleanupPlan, plan, plan_post};

verus! {

/// One parsed subcommand invocation.
#[allow(inconsistent_fields)]
pub enum Request {
    Clean { scope: CleanScope, assignee: String, any: bool },
    ConfigList { scope: Option<ConfigScope> },
    ConfigGet { name: String },
    ConfigSet { name: String, value: String, scope: ConfigScope },
    Create { issue: String, issue_type: String, push: bool },
    Init,
}

/// What a subcommand decided or computed.
pub enum Response {
    /// A cleanup plan, ready for the executor.
    Planned(CleanupPlan),
    /// The configuration listing.
    Entries(Vec<ConfigEntry>),
    /// The value of one configuration key, if set.
    Value(Option<String>),
    /// Outcome of a configuration write.
    SetOutcome(Result<(), ConfigError>),
    /// Outcome of the branch-creation decision.
    Created(Result<NewBranchSpec, CreateError>),
    /// Outcome of seeding the local defaults.
    InitOutcome(Result<(), InitError>),
}

/// Runs one subcommand to completion against the store and the
/// collaborator-supplied state, returning its typed result. Only
/// `config set` and `init` change the store; every other command leaves it
/// untouched.
pub fn execute(
    req: Request,
    store: &mut ConfigStore,
    inventory: Vec<Branch>,
    current: &str,
    existing: &Vec<String>,
) -> (r: Response)
    requires
        old(store).wf(),
    ensures
        final(store).wf(),
        match req {
            Request::Clean { scope, assignee, any } => *final(store) == *old(store) && (match r {
                Response::Planned(p) => plan_post(
                    inventory@,
                    scope,
                    (CleanupFilter { assignee, match_any: any }),
                    current@,
                    *old(store),
                    p,
                ),
                _ => false,
            }),
            Request::ConfigList { scope } => *final(store) == *old(store) && (match r {
                Response::Entries(es) => list_matches(*old(store), scope, es@),
                _ => false,
            }),
            Request::ConfigGet { name } => *final(store) == *old(store) && (match r {
                Response::Value(v) => match v {
                    Some(s) => old(store).spec_get(name@) == Some(s@),
                    None => old(store).spec_get(name@) is None,
                },
                _ => false,
            }),
            Request::ConfigSet { name, value, scope } => match r {
                Response::SetOutcome(res) => set_post(
                    *old(store),
                    *final(store),
                    name@,
                    value@,
                    scope,
                    res,
                ),
                _ => false,
            },
            Request::Create { issue, issue_type, push } => *final(store) == *old(store) && (match r {
                Response::Created(res) => create_post(
                    issue@,
                    issue_type@,
                    push,
                    *old(store),
                    existing@,
                    res,
                ),
                _ => false,
            }),
            Request::Init => match r {
                Response::InitOutcome(res) => init_post(*old(store), *final(store), res),
                _ => false,
            },
        },
{
    match req {
        Request::Clean { scope, assignee, any } => {
            let filter = CleanupFilter { assignee, match_any: any };
            let p = plan(scope, &filter, inventory, current, store);
            Response::Planned(p)
        },
        Request::ConfigList { scope } => Response::Entries(store.list(scope)),
        Request::ConfigGet { name } => Response::Value(store.get(name.as_str())),
        Request::ConfigSet { name, value, scope } => Response::SetOutcome(
            store.set(name.as_str(), value.as_str(), scope),
        ),
        Request::Create { issue, issue_type, push } => {
            let issue_ref = IssueRef { issue_id: issue, issue_type };
            Response::Created(create(&issue_ref, push, store, existing))
        },
        Request::Init => Response::InitOutcome(init(store)),
    }
}

} // verus!
