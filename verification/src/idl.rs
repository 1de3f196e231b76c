//! The instruction account model: a nested tree of leaf accounts and named
//! account groups, together with the spec-level description of depth-first
//! flattening, keep/drop decisions and group membership.

use vstd::prelude::*;
use crate::casing::{snake_of, pascal_of};

verus! {

/// One node of an instruction's account tree: either a single account slot
/// or a named, ordered group of nested nodes.
pub enum AccountNode {
    Leaf { name: String, is_mut: bool, is_signer: bool, is_optional: bool },
    Group { name: String, children: Vec<AccountNode> },
}

/// An argument of an instruction, carried through untouched.
pub struct IxArg {
    pub name: String,
    pub ty: String,
}

/// One instruction of the interface description: a name, an ordered account
/// tree, and its arguments.
pub struct Instruction {
    pub name: String,
    pub accounts: Vec<AccountNode>,
    pub args: Vec<IxArg>,
}

/// The number of leaf accounts in a node.
pub open spec fn leaf_count(n: AccountNode) -> nat
    decreases n,
{
    match n {
        AccountNode::Leaf { .. } => 1,
        AccountNode::Group { children, .. } => leaf_count_list(children@),
    }
}

/// The number of leaf accounts in a node list.
pub open spec fn leaf_count_list(s: Seq<AccountNode>) -> nat
    decreases s,
{
    if s.len() == 0 {
        0
    } else {
        leaf_count(s[0]) + leaf_count_list(s.drop_first())
    }
}

/// The ordered leaf names of a node, snake-cased, in depth-first
/// left-to-right order.
pub open spec fn leaves_of(n: AccountNode) -> Seq<Seq<char>>
    decreases n,
{
    match n {
        AccountNode::Leaf { name, .. } => seq![snake_of(name@)],
        AccountNode::Group { children, .. } => leaves_of_list(children@),
    }
}

/// The ordered leaf names of a node list, snake-cased, in depth-first
/// left-to-right order.
pub open spec fn leaves_of_list(s: Seq<AccountNode>) -> Seq<Seq<char>>
    decreases s,
{
    if s.len() == 0 {
        seq![]
    } else {
        leaves_of(s[0]) + leaves_of_list(s.drop_first())
    }
}

/// Whether a leaf name is dropped from the proxy struct: it is dropped
/// exactly when it is configured as a vault alias or a signer alias.
pub open spec fn is_dropped(name: Seq<char>, vault_aliases: Seq<Seq<char>>, signer_aliases: Seq<Seq<char>>) -> bool {
    vault_aliases.contains(name) || signer_aliases.contains(name)
}

/// The predicate that holds of the leaf names the proxy struct keeps.
pub open spec fn keep_filter(vault_aliases: Seq<Seq<char>>, signer_aliases: Seq<Seq<char>>) -> spec_fn(Seq<char>) -> bool {
    |name: Seq<char>| !is_dropped(name, vault_aliases, signer_aliases)
}

/// The predicate that holds of the leaf names the proxy struct drops.
pub open spec fn drop_filter(vault_aliases: Seq<Seq<char>>, signer_aliases: Seq<Seq<char>>) -> spec_fn(Seq<char>) -> bool {
    |name: Seq<char>| is_dropped(name, vault_aliases, signer_aliases)
}

/// The leaf names of a node list that the proxy struct keeps, in order.
pub open spec fn kept_of_list(s: Seq<AccountNode>, vault_aliases: Seq<Seq<char>>, signer_aliases: Seq<Seq<char>>) -> Seq<Seq<char>> {
    leaves_of_list(s).filter(keep_filter(vault_aliases, signer_aliases))
}

/// The leaf names of a node list that the proxy struct drops, in order.
pub open spec fn dropped_of_list(s: Seq<AccountNode>, vault_aliases: Seq<Seq<char>>, signer_aliases: Seq<Seq<char>>) -> Seq<Seq<char>> {
    leaves_of_list(s).filter(drop_filter(vault_aliases, signer_aliases))
}

/// The snake-cased names of the direct leaf children of a node list, in
/// order, without descending into groups.
pub open spec fn direct_leaves(s: Seq<AccountNode>) -> Seq<Seq<char>>
    decreases s,
{
    if s.len() == 0 {
        seq![]
    } else {
        match s[0] {
            AccountNode::Leaf { name, .. } => seq![snake_of(name@)] + direct_leaves(s.drop_first()),
            AccountNode::Group { .. } => direct_leaves(s.drop_first()),
        }
    }
}

/// One entry of the group membership table: a group path and the ordered
/// leaf names recorded directly under it.
pub struct GroupEntry {
    pub path: String,
    pub leaves: Vec<String>,
}

impl View for GroupEntry {
    type V = EntryV;

    open spec fn view(&self) -> EntryV {
        EntryV { path: self.path@, leaves: self.leaves.deep_view() }
    }
}

impl DeepView for GroupEntry {
    type V = EntryV;

    open spec fn deep_view(&self) -> EntryV {
        self.view()
    }
}

/// The spec-level form of a group membership entry.
#[verifier::ext_equal]
pub struct EntryV {
    pub path: Seq<char>,
    pub leaves: Seq<Seq<char>>,
}

/// The membership key of a group nested under the struct-name prefix
/// `prefix`: the prefix, an underscore, and the snake-cased group name.
pub open spec fn group_path(prefix: Seq<char>, group_name: Seq<char>) -> Seq<char> {
    prefix + "_"@ + snake_of(group_name)
}

/// The struct-name prefix of the nodes nested inside a group: the enclosing
/// prefix concatenated with the Pascal-cased group name.
pub open spec fn group_prefix(prefix: Seq<char>, group_name: Seq<char>) -> Seq<char> {
    prefix + pascal_of(group_name)
}

/// The membership entries contributed by the groups of a node list, in the
/// order the traversal enters them: each group's own entry, holding its
/// direct leaves, followed by the entries of its nested groups.
pub open spec fn sub_entries(s: Seq<AccountNode>, prefix: Seq<char>) -> Seq<EntryV>
    decreases s,
{
    if s.len() == 0 {
        seq![]
    } else {
        match s[0] {
            AccountNode::Leaf { .. } => sub_entries(s.drop_first(), prefix),
            AccountNode::Group { name, children } => {
                seq![EntryV { path: group_path(prefix, name@), leaves: direct_leaves(children@) }]
                    + sub_entries(children@, group_prefix(prefix, name@))
                    + sub_entries(s.drop_first(), prefix)
            },
        }
    }
}

/// The whole group membership table of an instruction's account list: the
/// `root` entry with the top-level leaves, then the entries of every nested
/// group.
pub open spec fn entries_of(s: Seq<AccountNode>, prefix: Seq<char>) -> Seq<EntryV> {
    seq![EntryV { path: "root"@, leaves: direct_leaves(s) }] + sub_entries(s, prefix)
}


/// For every account list, the kept and the dropped leaves partition the
/// ordered leaf list, and the dropped leaves are exactly the leaf names
/// that the vault or signer alias sets mention.
pub proof fn lemma_flatten_partition(s: Seq<AccountNode>, va: Seq<Seq<char>>, sa: Seq<Seq<char>>)
    ensures
        kept_of_list(s, va, sa).len() + dropped_of_list(s, va, sa).len() == leaves_of_list(s).len(),
        dropped_of_list(s, va, sa).to_set() =~= leaves_of_list(s).to_set().intersect(va.to_set().union(sa.to_set())),
{
    let leaves = leaves_of_list(s);
    lemma_partition_len(leaves, va, sa);
    let dropped = leaves.filter(drop_filter(va, sa));
    assert forall|n: Seq<char>| dropped.to_set().contains(n)
        implies leaves.to_set().contains(n) && (va.to_set().contains(n) || sa.to_set().contains(n)) by {
        let i = choose|i: int| 0 <= i < dropped.len() && dropped[i] == n;
        leaves.lemma_filter_pred(drop_filter(va, sa), i);
        leaves.lemma_filter_contains_rev(drop_filter(va, sa), n);
        if va.contains(n) {
            let k = choose|k: int| 0 <= k < va.len() && va[k] == n;
            assert(va.to_set().contains(n));
        } else {
            let k = choose|k: int| 0 <= k < sa.len() && sa[k] == n;
            assert(sa.to_set().contains(n));
        }
    }
    assert forall|n: Seq<char>| leaves.to_set().contains(n) && (va.to_set().contains(n) || sa.to_set().contains(n))
        implies dropped.to_set().contains(n) by {
        let i = choose|i: int| 0 <= i < leaves.len() && leaves[i] == n;
        assert(is_dropped(n, va, sa));
        assert(drop_filter(va, sa)(leaves[i]));
        leaves.lemma_filter_contains(drop_filter(va, sa), i);
    }
}

proof fn lemma_partition_len(leaves: Seq<Seq<char>>, va: Seq<Seq<char>>, sa: Seq<Seq<char>>)
    ensures
        leaves.filter(keep_filter(va, sa)).len() + leaves.filter(drop_filter(va, sa)).len() == leaves.len(),
    decreases leaves.len(),
{
    if leaves.len() == 0 {
        leaves.lemma_filter_len(keep_filter(va, sa));
        leaves.lemma_filter_len(drop_filter(va, sa));
    } else {
        let rest = leaves.drop_last();
        lemma_partition_len(rest, va, sa);
        rest.lemma_filter_push(leaves.last(), keep_filter(va, sa));
        rest.lemma_filter_push(leaves.last(), drop_filter(va, sa));
        assert(rest.push(leaves.last()) =~= leaves);
    }
}

/// The total leaf content of a membership table, as a multiset: order
/// within and across paths set aside.
pub open spec fn entries_leaves_ms(entries: Seq<EntryV>) -> vstd::multiset::Multiset<Seq<char>>
    decreases entries.len(),
{
    if entries.len() == 0 {
        vstd::multiset::Multiset::empty()
    } else {
        entries[0].leaves.to_multiset().add(entries_leaves_ms(entries.drop_first()))
    }
}

proof fn lemma_entries_ms_add(a: Seq<EntryV>, b: Seq<EntryV>)
    ensures
        entries_leaves_ms(a + b) =~= entries_leaves_ms(a).add(entries_leaves_ms(b)),
    decreases a.len(),
{
    broadcast use vstd::multiset::group_multiset_axioms;

    if a.len() == 0 {
        assert(a + b =~= b);
    } else {
        assert((a + b)[0] == a[0]);
        assert((a + b).drop_first() =~= a.drop_first() + b);
        lemma_entries_ms_add(a.drop_first(), b);
    }
}

proof fn lemma_direct_plus_subs(s: Seq<AccountNode>, prefix: Seq<char>)
    ensures
        direct_leaves(s).to_multiset().add(entries_leaves_ms(sub_entries(s, prefix)))
            =~= leaves_of_list(s).to_multiset(),
    decreases s,
{
    broadcast use vstd::multiset::group_multiset_axioms;

    if s.len() == 0 {
    } else {
        let rest = s.drop_first();
        match s[0] {
            AccountNode::Leaf { name, .. } => {
                let n = snake_of(name@);
                lemma_direct_plus_subs(rest, prefix);
                assert(leaves_of(s[0]) =~= seq![n]);
                assert(leaves_of_list(s) =~= leaves_of(s[0]) + leaves_of_list(rest));
                assert(leaves_of_list(s) =~= seq![n] + leaves_of_list(rest));
                assert(direct_leaves(s) =~= seq![n] + direct_leaves(rest));
                assert(sub_entries(s, prefix) =~= sub_entries(rest, prefix));
                vstd::seq_lib::lemma_multiset_commutative(seq![n], leaves_of_list(rest));
                vstd::seq_lib::lemma_multiset_commutative(seq![n], direct_leaves(rest));
            },
            AccountNode::Group { name, children } => {
                let entry = EntryV { path: group_path(prefix, name@), leaves: direct_leaves(children@) };
                let inner = sub_entries(children@, group_prefix(prefix, name@));
                lemma_direct_plus_subs(children@, group_prefix(prefix, name@));
                lemma_direct_plus_subs(rest, prefix);
                assert(leaves_of(s[0]) =~= leaves_of_list(children@));
                assert(leaves_of_list(s) =~= leaves_of(s[0]) + leaves_of_list(rest));
                assert(leaves_of_list(s) =~= leaves_of_list(children@) + leaves_of_list(rest));
                assert(direct_leaves(s) =~= direct_leaves(rest));
                assert(sub_entries(s, prefix) =~= (seq![entry] + inner) + sub_entries(rest, prefix));
                lemma_entries_ms_add(seq![entry] + inner, sub_entries(rest, prefix));
                lemma_entries_ms_add(seq![entry], inner);
                assert(entries_leaves_ms(seq![entry])
                    =~= direct_leaves(children@).to_multiset()) by {
                    assert(seq![entry][0] == entry);
                    assert(seq![entry].drop_first() =~= Seq::<EntryV>::empty());
                    assert(entries_leaves_ms(Seq::<EntryV>::empty())
                        =~= vstd::multiset::Multiset::<Seq<char>>::empty());
                }
                vstd::seq_lib::lemma_multiset_commutative(leaves_of_list(children@), leaves_of_list(rest));
            },
        }
    }
}

/// No leaf is lost or duplicated by flattening: the group membership
/// table's leaves, summed over all paths, are exactly the ordered leaf
/// list, as a multiset.
pub proof fn lemma_membership_complete(s: Seq<AccountNode>, prefix: Seq<char>)
    ensures
        entries_leaves_ms(entries_of(s, prefix)) =~= leaves_of_list(s).to_multiset(),
{
    broadcast use vstd::multiset::group_multiset_axioms;

    let root = EntryV { path: "root"@, leaves: direct_leaves(s) };
    lemma_entries_ms_add(seq![root], sub_entries(s, prefix));
    assert(entries_leaves_ms(seq![root]) =~= direct_leaves(s).to_multiset()) by {
        assert(seq![root][0] == root);
        assert(seq![root].drop_first() =~= Seq::<EntryV>::empty());
        assert(entries_leaves_ms(Seq::<EntryV>::empty())
            =~= vstd::multiset::Multiset::<Seq<char>>::empty());
    }
    lemma_direct_plus_subs(s, prefix);
}


/// A node's leaf-name list is as long as its leaf count.
pub proof fn lemma_leaf_count(n: AccountNode)
    ensures
        leaves_of(n).len() == leaf_count(n),
    decreases n,
{
    match n {
        AccountNode::Leaf { .. } => {},
        AccountNode::Group { children, .. } => {
            lemma_leaf_count_list(children@);
        },
    }
}

/// A node list's leaf-name list is as long as its leaf count.
pub proof fn lemma_leaf_count_list(s: Seq<AccountNode>)
    ensures
        leaves_of_list(s).len() == leaf_count_list(s),
    decreases s,
{
    if s.len() > 0 {
        lemma_leaf_count(s[0]);
        lemma_leaf_count_list(s.drop_first());
    }
}

} // verus!
