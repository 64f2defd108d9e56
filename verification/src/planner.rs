//! Cleanup Planner: decides, for a scope, a filter and a branch inventory,
//! which branches may safely be deleted and why the others may not.
//!
//! The plan preserves the inventory's order, never proposes the current
//! checkout, a protected branch or an unmerged branch, and matches authors
//! against the effective assignee case-insensitively on the ASCII range.

use vstd::prelude::*;
use vstd::string::*;
use crate::branch::{Branch, CleanScope, in_scope};
use crate::config::ConfigStore;
use crate::text::{folded_scalars, split_commas, str_eq, eq_ignore_ascii_case, split_str};

verus! {

/// Assignee filter for a cleanup run. With `match_any` set the assignee is
/// ignored; with it clear and an empty `assignee`, the configured
/// `project.email` takes its place.
pub struct CleanupFilter {
    pub assignee: String,
    pub match_any: bool,
}

/// Why a branch in scope was left out of the deletion set.
#[derive(Clone, Copy, Debug, PartialEq, Eq, Structural)]
pub enum ExcludeReason {
    /// The branch is checked out.
    CurrentCheckout,
    /// The branch stands in the configured protected list.
    Protected,
    /// The branch is not merged into the primary branch.
    Unmerged,
    /// The branch's last commit author is not the effective assignee.
    AssigneeMismatch,
}

impl ExcludeReason {
    /// The human-readable wording of the reason.
    pub open spec fn spec_describe(&self) -> Seq<char> {
        match self {
            ExcludeReason::CurrentCheckout => "current checkout"@,
            ExcludeReason::Protected => "protected"@,
            ExcludeReason::Unmerged => "unmerged"@,
            ExcludeReason::AssigneeMismatch => "assignee mismatch"@,
        }
    }

    /// Renders the reason for per-branch reporting.
    pub fn describe(&self) -> (r: String)
        ensures
            r@ == self.spec_describe(),
    {
        match self {
            ExcludeReason::CurrentCheckout => String::from_str("current checkout"),
            ExcludeReason::Protected => String::from_str("protected"),
            ExcludeReason::Unmerged => String::from_str("unmerged"),
            ExcludeReason::AssigneeMismatch => String::from_str("assignee mismatch"),
        }
    }
}

/// Branches marked for deletion, in inventory order, beside the branches
/// held back, each with its reason. Immutable once planned.
pub struct CleanupPlan {
    pub included: Vec<Branch>,
    pub excluded: Vec<(Branch, ExcludeReason)>,
}

/// Case-insensitive (ASCII) match of the branch's last commit author against
/// the effective assignee; a branch without an author never matches.
pub open spec fn author_matches(b: Branch, assignee: Seq<char>) -> bool {
    match b.last_commit_author {
        Some(a) => folded_scalars(a@) == folded_scalars(assignee),
        None => false,
    }
}

/// Whether the name stands in the protected list.
pub open spec fn name_protected(protected: Seq<Seq<char>>, name: Seq<char>) -> bool {
    exists|i: int| 0 <= i < protected.len() && protected[i] == name
}

/// The protected names a store configures: the comma-separated segments of
/// the resolved `branch.protected` value.
pub open spec fn spec_protected(store: ConfigStore) -> Seq<Seq<char>> {
    split_commas(store.spec_resolve("branch.protected"@))
}

/// The assignee a filter resolves to: its own when given, the configured
/// `project.email` otherwise.
pub open spec fn spec_effective_assignee(filter: CleanupFilter, store: ConfigStore) -> Seq<char> {
    if filter.assignee@.len() > 0 {
        filter.assignee@
    } else {
        store.spec_resolve("project.email"@)
    }
}

/// The first rule that holds back the branch, if any. The merged check is
/// never bypassed; `any` bypasses only the assignee match.
pub open spec fn spec_exclusion(
    b: Branch,
    current: Seq<char>,
    protected: Seq<Seq<char>>,
    any: bool,
    assignee: Seq<char>,
) -> Option<ExcludeReason> {
    if b.name@ == current {
        Some(ExcludeReason::CurrentCheckout)
    } else if name_protected(protected, b.name@) {
        Some(ExcludeReason::Protected)
    } else if !b.merged {
        Some(ExcludeReason::Unmerged)
    } else if !any && !author_matches(b, assignee) {
        Some(ExcludeReason::AssigneeMismatch)
    } else {
        None
    }
}

/// In scope and held back by no rule.
pub open spec fn spec_included(
    b: Branch,
    scope: CleanScope,
    current: Seq<char>,
    protected: Seq<Seq<char>>,
    any: bool,
    assignee: Seq<char>,
) -> bool {
    in_scope(b, scope) && spec_exclusion(b, current, protected, any, assignee) is None
}

/// In scope and held back by some rule.
pub open spec fn spec_excluded(
    b: Branch,
    scope: CleanScope,
    current: Seq<char>,
    protected: Seq<Seq<char>>,
    any: bool,
    assignee: Seq<char>,
) -> bool {
    in_scope(b, scope) && spec_exclusion(b, current, protected, any, assignee) is Some
}

/// The deletion set: the in-scope branches no rule holds back, in inventory
/// order.
pub open spec fn spec_plan_included(
    inv: Seq<Branch>,
    scope: CleanScope,
    current: Seq<char>,
    protected: Seq<Seq<char>>,
    any: bool,
    assignee: Seq<char>,
) -> Seq<Branch> {
    inv.filter(|b: Branch| spec_included(b, scope, current, protected, any, assignee))
}

/// The held-back branches with their reasons, in inventory order.
pub open spec fn spec_plan_excluded(
    inv: Seq<Branch>,
    scope: CleanScope,
    current: Seq<char>,
    protected: Seq<Seq<char>>,
    any: bool,
    assignee: Seq<char>,
) -> Seq<(Branch, ExcludeReason)> {
    inv.filter(|b: Branch| spec_excluded(b, scope, current, protected, any, assignee)).map_values(
        |b: Branch| (b, spec_exclusion(b, current, protected, any, assignee)->0),
    )
}

/// Everything `plan` promises of its result: the deletion set and the
/// held-back list, both pinned, in inventory order, for the store's
/// protected list and the filter's effective assignee.
pub open spec fn plan_post(
    inv: Seq<Branch>,
    scope: CleanScope,
    filter: CleanupFilter,
    current: Seq<char>,
    store: ConfigStore,
    p: CleanupPlan,
) -> bool {
    &&& p.included@ == spec_plan_included(
        inv,
        scope,
        current,
        spec_protected(store),
        filter.match_any,
        spec_effective_assignee(filter, store),
    )
    &&& p.excluded@ == spec_plan_excluded(
        inv,
        scope,
        current,
        spec_protected(store),
        filter.match_any,
        spec_effective_assignee(filter, store),
    )
}

/// Appending an element to a sequence extends its filtered view by that
/// element exactly when the predicate accepts it.
proof fn lemma_filter_push<A>(s: Seq<A>, x: A, pred: spec_fn(A) -> bool)
    ensures
        s.push(x).filter(pred) == if pred(x) {
            s.filter(pred).push(x)
        } else {
            s.filter(pred)
        },
{
    reveal(Seq::filter);
    assert(s.push(x).drop_last() =~= s);
    assert(s.push(x).last() == x);
}

/// The first rule that holds the branch back, computed.
fn exclusion_of(
    b: &Branch,
    current: &str,
    protected: &Vec<String>,
    any: bool,
    assignee: &str,
) -> (r: Option<ExcludeReason>)
    ensures
        r == spec_exclusion(*b, current@, protected.deep_view(), any, assignee@),
{
    if str_eq(b.name.as_str(), current) {
        return Some(ExcludeReason::CurrentCheckout);
    }
    let mut i: usize = 0;
    while i < protected.len()
        invariant
            i <= protected@.len(),
            b.name@ != current@,
            forall|j: int| 0 <= j < i ==> protected.deep_view()[j] != b.name@,
        decreases protected@.len() - i,
    {
        if str_eq(protected[i].as_str(), b.name.as_str()) {
            proof {
                assert(protected.deep_view()[i as int] == b.name@);
                assert(name_protected(protected.deep_view(), b.name@));
                assert(spec_exclusion(*b, current@, protected.deep_view(), any, assignee@)
                    == Some(ExcludeReason::Protected));
            }
            return Some(ExcludeReason::Protected);
        }
        i += 1;
    }
    proof {
        assert(!name_protected(protected.deep_view(), b.name@));
    }
    if !b.merged {
        return Some(ExcludeReason::Unmerged);
    }
    if !any {
        let matched = match &b.last_commit_author {
            Some(a) => eq_ignore_ascii_case(a.as_str(), assignee),
            None => false,
        };
        if !matched {
            return Some(ExcludeReason::AssigneeMismatch);
        }
    }
    None
}

/// Plans a cleanup: resolves the effective assignee and the protected list
/// from the store, then sorts every in-scope branch of the inventory into
/// the deletion set or the held-back list, preserving inventory order. An
/// empty inventory yields an empty plan.
pub fn plan(
    scope: CleanScope,
    filter: &CleanupFilter,
    inventory: Vec<Branch>,
    current: &str,
    store: &ConfigStore,
) -> (r: CleanupPlan)
    ensures
        plan_post(inventory@, scope, *filter, current@, *store, r),
{
    let ghost orig = inventory@;
    let ghost prot = spec_protected(*store);
    let ghost asg = spec_effective_assignee(*filter, *store);
    let any = filter.match_any;

    let assignee: String = if filter.assignee.as_str().is_empty() {
        store.get_or_default("project.email")
    } else {
        filter.assignee.clone()
    };
    let protected_value = store.get_or_default("branch.protected");
    let protected: Vec<String> = split_str(protected_value.as_str());
    proof {
        assert(assignee@ == asg);
        assert(protected.deep_view() == prot);
    }

    let mut rest = inventory;
    let mut included: Vec<Branch> = Vec::new();
    let mut excluded: Vec<(Branch, ExcludeReason)> = Vec::new();
    let ghost inc_pred = |b: Branch| spec_included(b, scope, current@, prot, any, asg);
    let ghost exc_pred = |b: Branch| spec_excluded(b, scope, current@, prot, any, asg);
    proof {
        assert(orig.take(0) =~= Seq::<Branch>::empty());
        assert(Seq::<Branch>::empty().filter(inc_pred) =~= Seq::<Branch>::empty());
        assert(Seq::<Branch>::empty().filter(exc_pred) =~= Seq::<Branch>::empty());
    }
    let ghost mut done: int = 0;
    while rest.len() > 0
        invariant
            0 <= done,
            done + rest@.len() == orig.len(),
            orig.skip(done) == rest@,
            inc_pred == (|b: Branch| spec_included(b, scope, current@, prot, any, asg)),
            exc_pred == (|b: Branch| spec_excluded(b, scope, current@, prot, any, asg)),
            included@ == orig.take(done).filter(inc_pred),
            excluded@ == orig.take(done).filter(exc_pred).map_values(
                |b: Branch| (b, spec_exclusion(b, current@, prot, any, asg)->0),
            ),
            assignee@ == asg,
            protected.deep_view() == prot,
        decreases rest@.len(),
    {
        let b = rest.remove(0);
        proof {
            assert(b == orig[done]);
            assert(orig.skip(done).skip(1) =~= orig.skip(done + 1));
            assert(orig.take(done + 1) =~= orig.take(done).push(b));
        }
        let ghost prefix = orig.take(done);
        let keep = match scope {
            CleanScope::Local => b.is_local,
            CleanScope::All => true,
        };
        if keep {
            let reason = exclusion_of(&b, current, &protected, any, assignee.as_str());
            proof {
                lemma_filter_push(prefix, b, inc_pred);
                lemma_filter_push(prefix, b, exc_pred);
                assert(prefix.push(b).filter(exc_pred).map_values(
                    |bb: Branch| (bb, spec_exclusion(bb, current@, prot, any, asg)->0),
                ) =~= if exc_pred(b) {
                    prefix.filter(exc_pred).map_values(
                        |bb: Branch| (bb, spec_exclusion(bb, current@, prot, any, asg)->0),
                    ).push((b, spec_exclusion(b, current@, prot, any, asg)->0))
                } else {
                    prefix.filter(exc_pred).map_values(
                        |bb: Branch| (bb, spec_exclusion(bb, current@, prot, any, asg)->0),
                    )
                });
            }
            match reason {
                None => {
                    included.push(b);
                },
                Some(why) => {
                    excluded.push((b, why));
                },
            }
        } else {
            proof {
                lemma_filter_push(prefix, b, inc_pred);
                lemma_filter_push(prefix, b, exc_pred);
                assert(!in_scope(b, scope));
                assert(!spec_included(b, scope, current@, prot, any, asg));
                assert(!spec_excluded(b, scope, current@, prot, any, asg));
                assert(!inc_pred(b) && !exc_pred(b));
                assert(prefix.push(b).filter(exc_pred).map_values(
                    |bb: Branch| (bb, spec_exclusion(bb, current@, prot, any, asg)->0),
                ) =~= prefix.filter(exc_pred).map_values(
                    |bb: Branch| (bb, spec_exclusion(bb, current@, prot, any, asg)->0),
                ));
            }
        }
        proof {
            done = done + 1;
        }
    }
    proof {
        assert(orig.take(done) =~= orig);
    }
    CleanupPlan { included, excluded }
}

/// The planner is deterministic: equal inputs yield a plan with identical
/// deletion set and identical held-back list, order and content alike.
pub proof fn lemma_plan_deterministic(
    inv1: Seq<Branch>,
    inv2: Seq<Branch>,
    scope: CleanScope,
    filter1: CleanupFilter,
    filter2: CleanupFilter,
    store1: ConfigStore,
    store2: ConfigStore,
    current: Seq<char>,
)
    requires
        inv1 == inv2,
        filter1 == filter2,
        store1 == store2,
    ensures
        spec_plan_included(
            inv1,
            scope,
            current,
            spec_protected(store1),
            filter1.match_any,
            spec_effective_assignee(filter1, store1),
        ) == spec_plan_included(
            inv2,
            scope,
            current,
            spec_protected(store2),
            filter2.match_any,
            spec_effective_assignee(filter2, store2),
        ),
        spec_plan_excluded(
            inv1,
            scope,
            current,
            spec_protected(store1),
            filter1.match_any,
            spec_effective_assignee(filter1, store1),
        ) == spec_plan_excluded(
            inv2,
            scope,
            current,
            spec_protected(store2),
            filter2.match_any,
            spec_effective_assignee(filter2, store2),
        ),
{
}

/// With `match_any` set, every merged, unprotected, non-current branch in
/// scope stands in the deletion set, whatever the assignee.
pub proof fn lemma_any_includes_all_merged(
    inv: Seq<Branch>,
    i: int,
    scope: CleanScope,
    current: Seq<char>,
    protected: Seq<Seq<char>>,
    assignee: Seq<char>,
)
    requires
        0 <= i < inv.len(),
        in_scope(inv[i], scope),
        inv[i].merged,
        inv[i].name@ != current,
        !name_protected(protected, inv[i].name@),
    ensures
        spec_plan_included(inv, scope, current, protected, true, assignee).contains(inv[i]),
{
    let pred = |b: Branch| spec_included(b, scope, current, protected, true, assignee);
    assert(pred(inv[i]));
    inv.lemma_filter_contains(pred, i);
}

/// With `match_any` clear and an empty assignee filter, the effective
/// assignee is exactly the resolved `project.email` configuration value.
pub proof fn lemma_default_assignee(filter: CleanupFilter, store: ConfigStore)
    requires
        !filter.match_any,
        filter.assignee@.len() == 0,
    ensures
        spec_effective_assignee(filter, store) == store.spec_resolve("project.email"@),
{
}

} // verus!
