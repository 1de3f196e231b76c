//! The CPI call planner: for every group path, how each of its leaves is
//! supplied to the forwarded call — passed through directly, or replaced by
//! the fixed vault or signer account — together with the call-shape flags.

use vstd::prelude::*;
use crate::casing::snake_of;
use crate::idl::{EntryV, GroupEntry, is_dropped, AccountNode, direct_leaves, sub_entries, entries_of, group_path, group_prefix};
use crate::flatten::contains_name;
use crate::config::GlamIxCodeGenConfig;

verus! {

/// How one leaf of a group is supplied to the forwarded call.
#[derive(Clone, Copy, PartialEq, Eq, Structural, Debug)]
pub enum SupplyKind {
    Direct,
    VaultSubstitution,
    SignerSubstitution,
}

/// One supply expression: a leaf name and how its account is supplied.
pub struct SupplyExpr {
    pub name: String,
    pub kind: SupplyKind,
}

/// The spec-level form of a supply expression.
#[verifier::ext_equal]
pub struct SupplyV {
    pub name: Seq<char>,
    pub kind: SupplyKind,
}

impl View for SupplyExpr {
    type V = SupplyV;

    open spec fn view(&self) -> SupplyV {
        SupplyV { name: self.name@, kind: self.kind }
    }
}

impl DeepView for SupplyExpr {
    type V = SupplyV;

    open spec fn deep_view(&self) -> SupplyV {
        self.view()
    }
}

/// The supply expressions of one group path, one per leaf, in leaf order.
pub struct GroupPlan {
    pub path: String,
    pub supplies: Vec<SupplyExpr>,
}

/// The spec-level form of one group's plan.
#[verifier::ext_equal]
pub struct GroupPlanV {
    pub path: Seq<char>,
    pub supplies: Seq<SupplyV>,
}

impl View for GroupPlan {
    type V = GroupPlanV;

    open spec fn view(&self) -> GroupPlanV {
        GroupPlanV { path: self.path@, supplies: self.supplies.deep_view() }
    }
}

impl DeepView for GroupPlan {
    type V = GroupPlanV;

    open spec fn deep_view(&self) -> GroupPlanV {
        self.view()
    }
}

/// How a leaf is supplied: a vault alias takes the fixed vault account, and
/// the vault set wins when a name is in both alias sets; a signer alias
/// takes the fixed signing account; any other leaf passes through.
pub open spec fn spec_supply_kind(name: Seq<char>, va: Seq<Seq<char>>, sa: Seq<Seq<char>>) -> SupplyKind {
    if va.contains(name) {
        SupplyKind::VaultSubstitution
    } else if sa.contains(name) {
        SupplyKind::SignerSubstitution
    } else {
        SupplyKind::Direct
    }
}

/// The supply expressions of a leaf list, in order.
pub open spec fn spec_supplies(leaves: Seq<Seq<char>>, va: Seq<Seq<char>>, sa: Seq<Seq<char>>) -> Seq<SupplyV> {
    Seq::new(leaves.len(), |i: int| SupplyV { name: leaves[i], kind: spec_supply_kind(leaves[i], va, sa) })
}

/// The plans of all group paths of a membership table, in table order.
pub open spec fn spec_group_plans(entries: Seq<EntryV>, va: Seq<Seq<char>>, sa: Seq<Seq<char>>) -> Seq<GroupPlanV> {
    Seq::new(entries.len(), |i: int| GroupPlanV {
        path: entries[i].path,
        supplies: spec_supplies(entries[i].leaves, va, sa),
    })
}

/// Plans the forwarded call's account supply: for every group path of the
/// membership table, one supply expression per leaf, substituting the fixed
/// vault account for vault aliases and the fixed signing account for signer
/// aliases.
pub fn plan_cpi_groups(
    groups: &Vec<GroupEntry>,
    vault_aliases: &Vec<String>,
    signer_aliases: &Vec<String>,
) -> (r: Vec<GroupPlan>)
    ensures
        r.deep_view() == spec_group_plans(groups.deep_view(), vault_aliases.deep_view(), signer_aliases.deep_view()),
{
    let ghost va = vault_aliases.deep_view();
    let ghost sa = signer_aliases.deep_view();
    let mut r: Vec<GroupPlan> = Vec::new();
    let n = groups.len();
    let mut gi: usize = 0;
    while gi < n
        invariant
            n == groups@.len(),
            gi <= n,
            va == vault_aliases.deep_view(),
            sa == signer_aliases.deep_view(),
            r@.len() == gi,
            forall|k: int| 0 <= k < gi ==> #[trigger] r.deep_view()[k]
                =~~= spec_group_plans(groups.deep_view(), va, sa)[k],
        decreases n - gi,
    {
        let entry = &groups[gi];
        let m = entry.leaves.len();
        let mut supplies: Vec<SupplyExpr> = Vec::new();
        let mut j: usize = 0;
        while j < m
            invariant
                m == entry.leaves@.len(),
                j <= m,
                va == vault_aliases.deep_view(),
                sa == signer_aliases.deep_view(),
                supplies@.len() == j,
                forall|l: int| 0 <= l < j ==> #[trigger] supplies.deep_view()[l]
                    =~~= spec_supplies(entry.leaves.deep_view(), va, sa)[l],
            decreases m - j,
        {
            let name = &entry.leaves[j];
            let kind = if contains_name(vault_aliases, name) {
                SupplyKind::VaultSubstitution
            } else if contains_name(signer_aliases, name) {
                SupplyKind::SignerSubstitution
            } else {
                SupplyKind::Direct
            };
            let ghost sup_old = supplies.deep_view();
            supplies.push(SupplyExpr { name: name.clone(), kind });
            proof {
                assert(entry.leaves.deep_view()[j as int] == name@);
                assert forall|l: int| 0 <= l < j implies #[trigger] supplies.deep_view()[l]
                    =~~= spec_supplies(entry.leaves.deep_view(), va, sa)[l] by {
                    assert(supplies.deep_view()[l] == sup_old[l]);
                }
                assert(supplies.deep_view()[j as int]
                    =~~= spec_supplies(entry.leaves.deep_view(), va, sa)[j as int]);
            }
            j = j + 1;
        }
        let ghost r_old = r.deep_view();
        r.push(GroupPlan { path: entry.path.clone(), supplies });
        proof {
            assert forall|k: int| 0 <= k < gi implies #[trigger] r.deep_view()[k]
                =~~= spec_group_plans(groups.deep_view(), va, sa)[k] by {
                assert(r.deep_view()[k] == r_old[k]);
            }
            assert(groups.deep_view()[gi as int] == entry@);
            assert(r.deep_view()[gi as int].supplies =~~= spec_supplies(entry.leaves.deep_view(), va, sa));
            assert(r.deep_view()[gi as int]
                =~~= spec_group_plans(groups.deep_view(), va, sa)[gi as int]);
        }
        gi = gi + 1;
    }
    proof {
        assert(r.deep_view() =~~= spec_group_plans(groups.deep_view(), va, sa));
    }
    r
}

/// The account a supply expression actually hands to the forwarded call:
/// the leaf's own proxy-struct field, or the fixed vault or signer account.
pub open spec fn supplied_name(s: SupplyV) -> Seq<char> {
    match s.kind {
        SupplyKind::Direct => s.name,
        SupplyKind::VaultSubstitution => "glam_vault"@,
        SupplyKind::SignerSubstitution => "glam_signer"@,
    }
}

/// What substitution leaves a leaf name as: vault aliases become the fixed
/// vault account, signer aliases the fixed signing account, and every other
/// name stays itself.
pub open spec fn substitute_name(n: Seq<char>, va: Seq<Seq<char>>, sa: Seq<Seq<char>>) -> Seq<char> {
    if va.contains(n) {
        "glam_vault"@
    } else if sa.contains(n) {
        "glam_signer"@
    } else {
        n
    }
}

/// Reconstruction law: the planner's supply sequence for every group path
/// lines up one-to-one with that path's leaves, in order, so substituting
/// the sequences back into the group structure reproduces the original tree
/// shape, with exactly the vault- and signer-aliased leaves replaced by the
/// fixed accounts and every other leaf passed through unchanged.
pub proof fn lemma_plan_reconstruction(entries: Seq<EntryV>, va: Seq<Seq<char>>, sa: Seq<Seq<char>>)
    ensures
        spec_group_plans(entries, va, sa).len() == entries.len(),
        forall|i: int| 0 <= i < entries.len()
            ==> #[trigger] spec_group_plans(entries, va, sa)[i].path == entries[i].path,
        forall|i: int| 0 <= i < entries.len()
            ==> #[trigger] spec_group_plans(entries, va, sa)[i].supplies.len() == entries[i].leaves.len(),
        forall|i: int, j: int| 0 <= i < entries.len() && 0 <= j < entries[i].leaves.len()
            ==> #[trigger] spec_group_plans(entries, va, sa)[i].supplies[j].name == entries[i].leaves[j],
        forall|i: int, j: int| 0 <= i < entries.len() && 0 <= j < entries[i].leaves.len()
            ==> supplied_name(#[trigger] spec_group_plans(entries, va, sa)[i].supplies[j])
                == substitute_name(entries[i].leaves[j], va, sa),
        forall|i: int, j: int| 0 <= i < entries.len() && 0 <= j < entries[i].leaves.len()
            ==> ((#[trigger] spec_group_plans(entries, va, sa)[i].supplies[j].kind == SupplyKind::Direct)
                <==> !is_dropped(entries[i].leaves[j], va, sa)),
{
}

/// The shape of one proxied instruction's forwarded call, read off the
/// instruction's configuration.
pub struct CallShape {
    pub signed_by_vault: bool,
    pub with_remaining_accounts: bool,
    pub mutable_state: bool,
    pub permission: Option<String>,
    pub integration: Option<String>,
    pub pre_cpi: Option<String>,
}

/// Clones an optional name.
fn clone_opt_string(o: &Option<String>) -> (r: Option<String>)
    ensures
        r.deep_view() == o.deep_view(),
{
    match o {
        Some(s) => Some(s.clone()),
        None => None,
    }
}

/// Whether a call shape matches an optional configuration: every flag and
/// hook is the configured one, and absent configuration leaves every flag
/// off and every hook absent.
pub open spec fn call_shape_ok(r: CallShape, cfg: Option<GlamIxCodeGenConfig>) -> bool {
    match cfg {
        Some(c) => {
            &&& r.signed_by_vault == c.signed_by_vault
            &&& r.with_remaining_accounts == c.with_remaining_accounts
            &&& r.mutable_state == c.mutable_state
            &&& r.permission.deep_view() == c.permission.deep_view()
            &&& r.integration.deep_view() == c.integration.deep_view()
            &&& r.pre_cpi.deep_view() == c.pre_cpi.deep_view()
        },
        None => {
            &&& r.signed_by_vault == false
            &&& r.with_remaining_accounts == false
            &&& r.mutable_state == false
            &&& r.permission is None
            &&& r.integration is None
            &&& r.pre_cpi is None
        },
    }
}

/// Reads the call-shape decisions of one instruction off its optional
/// configuration: whether the call is signed with the vault's seeds,
/// whether trailing accounts are forwarded, whether the state is mutable,
/// and which permission gate, integration gate and pre-call hook apply.
pub fn call_shape(cfg: Option<&GlamIxCodeGenConfig>) -> (r: CallShape)
    ensures
        call_shape_ok(r, match cfg {
            Some(c) => Some(*c),
            None => None,
        }),
{
    match cfg {
        Some(c) => CallShape {
            signed_by_vault: c.signed_by_vault,
            with_remaining_accounts: c.with_remaining_accounts,
            mutable_state: c.mutable_state,
            permission: clone_opt_string(&c.permission),
            integration: clone_opt_string(&c.integration),
            pre_cpi: clone_opt_string(&c.pre_cpi),
        },
        None => CallShape {
            signed_by_vault: false,
            with_remaining_accounts: false,
            mutable_state: false,
            permission: None,
            integration: None,
            pre_cpi: None,
        },
    }
}


/// The nested account value the forwarded call receives: the original
/// group structure, with each leaf holding the account that is actually
/// supplied for it.
pub enum SuppliedNode {
    Leaf(Seq<char>),
    Group(Seq<char>, Seq<SuppliedNode>),
}

/// The account tree the forwarded call receives for a node list: the same
/// structure, group names kept, and each leaf replaced by the account the
/// substitution rule supplies for it.
pub open spec fn supplied_tree(s: Seq<AccountNode>, va: Seq<Seq<char>>, sa: Seq<Seq<char>>) -> Seq<SuppliedNode>
    decreases s,
{
    if s.len() == 0 {
        seq![]
    } else {
        match s[0] {
            AccountNode::Leaf { name, .. } =>
                seq![SuppliedNode::Leaf(substitute_name(snake_of(name@), va, sa))]
                    + supplied_tree(s.drop_first(), va, sa),
            AccountNode::Group { name, children } =>
                seq![SuppliedNode::Group(name@, supplied_tree(children@, va, sa))]
                    + supplied_tree(s.drop_first(), va, sa),
        }
    }
}

/// The direct leaf values of a supplied node list, in order.
pub open spec fn shape_direct(sh: Seq<SuppliedNode>) -> Seq<Seq<char>>
    decreases sh,
{
    if sh.len() == 0 {
        seq![]
    } else {
        match sh[0] {
            SuppliedNode::Leaf(n) => seq![n] + shape_direct(sh.drop_first()),
            SuppliedNode::Group(_, _) => shape_direct(sh.drop_first()),
        }
    }
}

/// The per-path entries of the groups of a supplied node list, in
/// traversal order, with the same path keys the flattener uses.
pub open spec fn shape_subs(sh: Seq<SuppliedNode>, prefix: Seq<char>) -> Seq<EntryV>
    decreases sh,
{
    if sh.len() == 0 {
        seq![]
    } else {
        match sh[0] {
            SuppliedNode::Leaf(_) => shape_subs(sh.drop_first(), prefix),
            SuppliedNode::Group(name, children) => {
                seq![EntryV { path: group_path(prefix, name), leaves: shape_direct(children) }]
                    + shape_subs(children, group_prefix(prefix, name))
                    + shape_subs(sh.drop_first(), prefix)
            },
        }
    }
}

/// The whole per-path table of a supplied node list: the root path's
/// top-level account list, then every nested group's.
pub open spec fn shape_entries(sh: Seq<SuppliedNode>, prefix: Seq<char>) -> Seq<EntryV> {
    seq![EntryV { path: "root"@, leaves: shape_direct(sh) }] + shape_subs(sh, prefix)
}

/// The substitution rule applied to every name of a list, in order.
pub open spec fn subst_names(ls: Seq<Seq<char>>, va: Seq<Seq<char>>, sa: Seq<Seq<char>>) -> Seq<Seq<char>> {
    Seq::new(ls.len(), |i: int| substitute_name(ls[i], va, sa))
}

/// A membership table with every leaf put through the substitution rule.
pub open spec fn subst_entries(entries: Seq<EntryV>, va: Seq<Seq<char>>, sa: Seq<Seq<char>>) -> Seq<EntryV> {
    Seq::new(entries.len(), |i: int| EntryV {
        path: entries[i].path,
        leaves: subst_names(entries[i].leaves, va, sa),
    })
}

/// The accounts each group plan actually supplies, per path.
pub open spec fn plan_supplied(entries: Seq<EntryV>, va: Seq<Seq<char>>, sa: Seq<Seq<char>>) -> Seq<EntryV> {
    Seq::new(entries.len(), |i: int| EntryV {
        path: entries[i].path,
        leaves: Seq::new(spec_group_plans(entries, va, sa)[i].supplies.len(),
            |j: int| supplied_name(spec_group_plans(entries, va, sa)[i].supplies[j])),
    })
}

proof fn lemma_supplied_tree_direct(s: Seq<AccountNode>, va: Seq<Seq<char>>, sa: Seq<Seq<char>>)
    ensures
        shape_direct(supplied_tree(s, va, sa)) =~= subst_names(direct_leaves(s), va, sa),
        supplied_tree(s, va, sa).len() == s.len(),
    decreases s,
{
    if s.len() == 0 {
    } else {
        let rest = s.drop_first();
        lemma_supplied_tree_direct(rest, va, sa);
        match s[0] {
            AccountNode::Leaf { name, .. } => {
                assert(supplied_tree(s, va, sa)
                    =~= seq![SuppliedNode::Leaf(substitute_name(snake_of(name@), va, sa))]
                        + supplied_tree(rest, va, sa));
                assert(supplied_tree(s, va, sa).drop_first() =~= supplied_tree(rest, va, sa));
                assert(direct_leaves(s) =~= seq![snake_of(name@)] + direct_leaves(rest));
                assert(shape_direct(supplied_tree(s, va, sa))
                    =~= seq![substitute_name(snake_of(name@), va, sa)]
                        + shape_direct(supplied_tree(rest, va, sa)));
            },
            AccountNode::Group { name, children } => {
                assert(supplied_tree(s, va, sa)
                    =~= seq![SuppliedNode::Group(name@, supplied_tree(children@, va, sa))]
                        + supplied_tree(rest, va, sa));
                assert(supplied_tree(s, va, sa).drop_first() =~= supplied_tree(rest, va, sa));
                assert(direct_leaves(s) =~= direct_leaves(rest));
                assert(shape_direct(supplied_tree(s, va, sa))
                    =~= shape_direct(supplied_tree(rest, va, sa)));
            },
        }
    }
}

proof fn lemma_supplied_tree_subs(s: Seq<AccountNode>, prefix: Seq<char>, va: Seq<Seq<char>>, sa: Seq<Seq<char>>)
    ensures
        shape_subs(supplied_tree(s, va, sa), prefix) =~~= subst_entries(sub_entries(s, prefix), va, sa),
    decreases s,
{
    if s.len() == 0 {
    } else {
        let rest = s.drop_first();
        lemma_supplied_tree_subs(rest, prefix, va, sa);
        match s[0] {
            AccountNode::Leaf { name, .. } => {
                assert(supplied_tree(s, va, sa)
                    =~= seq![SuppliedNode::Leaf(substitute_name(snake_of(name@), va, sa))]
                        + supplied_tree(rest, va, sa));
                assert(supplied_tree(s, va, sa).drop_first() =~= supplied_tree(rest, va, sa));
                assert(sub_entries(s, prefix) =~= sub_entries(rest, prefix));
                assert(shape_subs(supplied_tree(s, va, sa), prefix)
                    =~= shape_subs(supplied_tree(rest, va, sa), prefix));
            },
            AccountNode::Group { name, children } => {
                lemma_supplied_tree_subs(children@, group_prefix(prefix, name@), va, sa);
                lemma_supplied_tree_direct(children@, va, sa);
                assert(supplied_tree(s, va, sa)
                    =~= seq![SuppliedNode::Group(name@, supplied_tree(children@, va, sa))]
                        + supplied_tree(rest, va, sa));
                assert(supplied_tree(s, va, sa).drop_first() =~= supplied_tree(rest, va, sa));
                assert(sub_entries(s, prefix)
                    =~= seq![EntryV { path: group_path(prefix, name@), leaves: direct_leaves(children@) }]
                        + sub_entries(children@, group_prefix(prefix, name@))
                        + sub_entries(rest, prefix));
                assert(shape_subs(supplied_tree(s, va, sa), prefix)
                    =~= seq![EntryV {
                        path: group_path(prefix, name@),
                        leaves: shape_direct(supplied_tree(children@, va, sa)),
                    }]
                        + shape_subs(supplied_tree(children@, va, sa), group_prefix(prefix, name@))
                        + shape_subs(supplied_tree(rest, va, sa), prefix));
            },
        }
    }
}

/// Reconstruction law, at the tree level: substituting the planner's
/// supply sequences back into the original group structure — the root
/// path's sequence as the top-level account list, every other path as its
/// group's nested value — yields exactly the account tree that the
/// substitution rule produces from the original: the same shape, with only
/// aliased leaves replaced.
pub proof fn lemma_tree_reconstruction(s: Seq<AccountNode>, prefix: Seq<char>, va: Seq<Seq<char>>, sa: Seq<Seq<char>>)
    ensures
        shape_entries(supplied_tree(s, va, sa), prefix) == plan_supplied(entries_of(s, prefix), va, sa),
        supplied_tree(s, va, sa).len() == s.len(),
{
    lemma_supplied_tree_direct(s, va, sa);
    lemma_supplied_tree_subs(s, prefix, va, sa);
    let entries = entries_of(s, prefix);
    lemma_plan_reconstruction(entries, va, sa);
    assert forall|i: int| 0 <= i < entries.len()
        implies #[trigger] plan_supplied(entries, va, sa)[i] =~~= subst_entries(entries, va, sa)[i] by {
        assert forall|j: int| 0 <= j < entries[i].leaves.len()
            implies supplied_name(#[trigger] spec_group_plans(entries, va, sa)[i].supplies[j])
                == substitute_name(entries[i].leaves[j], va, sa) by {}
        assert(plan_supplied(entries, va, sa)[i].leaves =~= subst_entries(entries, va, sa)[i].leaves);
    }
    assert(plan_supplied(entries, va, sa) =~~= subst_entries(entries, va, sa));
    assert(shape_entries(supplied_tree(s, va, sa), prefix) =~~= subst_entries(entries, va, sa)) by {
        assert(shape_entries(supplied_tree(s, va, sa), prefix)
            =~= seq![EntryV { path: "root"@, leaves: shape_direct(supplied_tree(s, va, sa)) }]
                + shape_subs(supplied_tree(s, va, sa), prefix));
        assert(subst_entries(entries, va, sa)[0]
            =~~= EntryV { path: "root"@, leaves: subst_names(direct_leaves(s), va, sa) });
        assert forall|i: int| 1 <= i < entries.len()
            implies #[trigger] subst_entries(entries, va, sa)[i]
                =~~= subst_entries(sub_entries(s, prefix), va, sa)[i - 1] by {
            assert(entries[i] == sub_entries(s, prefix)[i - 1]);
        }
    }
}

} // verus!
