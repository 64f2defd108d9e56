//! Init/Bootstrap: writes the repository-local configuration defaults —
//! the protected-branch list, the base ref and the common naming templates —
//! without ever overwriting a key the user has already set. Re-running it
//! is a no-op on those keys.

use vstd::prelude::*;
use crate::config::{ConfigScope, ConfigStore};

verus! {

/// Failure of initialisation.
#[derive(Clone, Copy, Debug, PartialEq, Eq, Structural)]
pub enum InitError {
    /// Kept for callers that choose to forbid re-initialisation; the policy
    /// here is idempotent success, so `init` never reports it.
    AlreadyInitialized,
    /// The repository-local store cannot be written, e.g. outside a
    /// repository.
    WriteFailed,
}

/// The keys `init` seeds.
pub open spec fn is_init_key(k: Seq<char>) -> bool {
    ||| k == "branch.protected"@
    ||| k == "branch.base"@
    ||| k == "branch.naming.feature"@
    ||| k == "branch.naming.bugfix"@
}

/// The value `init` seeds a key with.
pub open spec fn init_default(k: Seq<char>) -> Seq<char> {
    if k == "branch.protected"@ {
        "main"@
    } else if k == "branch.base"@ {
        "HEAD"@
    } else if k == "branch.naming.feature"@ {
        "feature"@
    } else {
        "bugfix"@
    }
}

/// Everything `init` promises: an unwritable local store is reported
/// without any change; otherwise every seeded key now holds its old value
/// or, when it was unset, its default, and no other key and no global
/// entry moved.
pub open spec fn init_post(pre: ConfigStore, post: ConfigStore, r: Result<(), InitError>) -> bool {
    &&& post.local_writable == pre.local_writable
    &&& post.global_writable == pre.global_writable
    &&& !pre.local_writable ==> r == Err::<(), InitError>(InitError::WriteFailed) && post == pre
    &&& pre.local_writable ==> {
        &&& r == Ok::<(), InitError>(())
        &&& post.global@ == pre.global@
        &&& forall|k: Seq<char>|
            is_init_key(k) ==> post.spec_get_scoped(ConfigScope::Local, k) == match pre.spec_get_scoped(
                ConfigScope::Local,
                k,
            ) {
                Some(v) => Some(v),
                None => Some(init_default(k)),
            }
        &&& forall|k: Seq<char>|
            !is_init_key(k) ==> post.spec_get_scoped(ConfigScope::Local, k) == pre.spec_get_scoped(
                ConfigScope::Local,
                k,
            )
    }
}

/// Sets the key in the local scope only when it is not set there yet.
fn ensure_default(store: &mut ConfigStore, key: &str, value: &str)
    requires
        old(store).wf(),
        old(store).local_writable,
        key@.len() > 0,
    ensures
        final(store).wf(),
        final(store).local_writable == old(store).local_writable,
        final(store).global_writable == old(store).global_writable,
        final(store).global@ == old(store).global@,
        final(store).spec_get_scoped(ConfigScope::Local, key@) == match old(store).spec_get_scoped(
            ConfigScope::Local,
            key@,
        ) {
            Some(v) => Some(v),
            None => Some(value@),
        },
        forall|k2: Seq<char>|
            k2 != key@ ==> final(store).spec_get_scoped(ConfigScope::Local, k2) == old(
                store,
            ).spec_get_scoped(ConfigScope::Local, k2),
{
    match store.get_scoped(key, ConfigScope::Local) {
        Some(_) => (),
        None => {
            let r = store.set(key, value, ConfigScope::Local);
            proof {
                assert(r is Ok);
                assert(store.scope_entries(ConfigScope::Global) == old(store).scope_entries(
                    ConfigScope::Global,
                ));
            }
        },
    }
}

/// Seeds the local defaults: `branch.protected`, `branch.base` and the
/// `feature`/`bugfix` naming templates. Keys already set locally keep their
/// values — `init` is idempotent — and the global scope is never touched.
pub fn init(store: &mut ConfigStore) -> (r: Result<(), InitError>)
    requires
        old(store).wf(),
    ensures
        final(store).wf(),
        init_post(*old(store), *final(store), r),
{
    proof {
        reveal_strlit("branch.protected");
        reveal_strlit("branch.base");
        reveal_strlit("branch.naming.feature");
        reveal_strlit("branch.naming.bugfix");
    }
    if !store.local_writable {
        return Err(InitError::WriteFailed);
    }
    ensure_default(store, "branch.protected", "main");
    ensure_default(store, "branch.base", "HEAD");
    ensure_default(store, "branch.naming.feature", "feature");
    ensure_default(store, "branch.naming.bugfix", "bugfix");
    Ok(())
}

} // verus!
