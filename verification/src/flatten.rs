//! The account flattener: a depth-first walk of an instruction's account
//! tree that produces the ordered leaf list, the keep/drop decision per
//! leaf, and the group membership table.

use vstd::prelude::*;
use crate::casing::{snake_of, pascal_of, to_snake, to_pascal};
use crate::idl::{
    AccountNode, GroupEntry, EntryV,
    leaves_of, leaves_of_list, kept_of_list, keep_filter,
    direct_leaves, sub_entries, entries_of, group_path, group_prefix,
};

verus! {

/// The flattening of one instruction's account tree: the ordered leaf
/// names (snake-cased, depth-first), the names the proxy struct keeps, and
/// the group membership table.
pub struct FlattenResult {
    pub ordered_leaf_names: Vec<String>,
    pub kept: Vec<String>,
    pub groups: Vec<GroupEntry>,
}

/// Whether a name occurs in a list of names.
pub fn contains_name(names: &Vec<String>, name: &String) -> (b: bool)
    ensures
        b == names.deep_view().contains(name@),
{
    let n = names.len();
    let mut i: usize = 0;
    while i < n
        invariant
            n == names@.len(),
            i <= n,
            forall|j: int| 0 <= j < i ==> names.deep_view()[j] != name@,
        decreases n - i,
    {
        let ni: &String = &names[i];
        if ni.eq(name) {
            assert(names.deep_view()[i as int] == name@);
            return true;
        }
        i = i + 1;
    }
    assert(forall|j: int| 0 <= j < names.deep_view().len() ==> names.deep_view()[j] != name@);
    false
}

/// The intermediate result of flattening one node list: its leaves in
/// depth-first order, the kept leaves, its direct leaf children, and the
/// membership entries of the groups nested in it.
struct FlattenPart {
    ordered: Vec<String>,
    kept: Vec<String>,
    direct: Vec<String>,
    subs: Vec<GroupEntry>,
}

fn flatten_nodes(
    nodes: &Vec<AccountNode>,
    vault_aliases: &Vec<String>,
    signer_aliases: &Vec<String>,
    prefix: &String,
) -> (r: FlattenPart)
    ensures
        r.ordered.deep_view() == leaves_of_list(nodes@),
        r.kept.deep_view() == kept_of_list(nodes@, vault_aliases.deep_view(), signer_aliases.deep_view()),
        r.direct.deep_view() == direct_leaves(nodes@),
        r.subs.deep_view() == sub_entries(nodes@, prefix@),
    decreases nodes,
{
    let ghost va = vault_aliases.deep_view();
    let ghost sa = signer_aliases.deep_view();
    let mut ordered: Vec<String> = Vec::new();
    let mut kept: Vec<String> = Vec::new();
    let mut direct: Vec<String> = Vec::new();
    let mut subs: Vec<GroupEntry> = Vec::new();
    let n = nodes.len();
    let mut i: usize = 0;
    proof {
        assert(nodes@.skip(0) =~= nodes@);
    }
    while i < n
        invariant
            n == nodes@.len(),
            i <= n,
            va == vault_aliases.deep_view(),
            sa == signer_aliases.deep_view(),
            leaves_of_list(nodes@) =~= ordered.deep_view() + leaves_of_list(nodes@.skip(i as int)),
            kept.deep_view() =~= ordered.deep_view().filter(keep_filter(va, sa)),
            direct_leaves(nodes@) =~= direct.deep_view() + direct_leaves(nodes@.skip(i as int)),
            sub_entries(nodes@, prefix@) =~= subs.deep_view() + sub_entries(nodes@.skip(i as int), prefix@),
        decreases n - i,
    {
        proof {
            assert(nodes@.skip(i as int)[0] == nodes@[i as int]);
            assert(nodes@.skip(i as int).drop_first() =~= nodes@.skip(i as int + 1));
        }
        let node = &nodes[i];
        proof {
            assert(*node == nodes@[i as int]);
        }
        match node {
            AccountNode::Leaf { name, .. } => {
                let snake_name = to_snake(name.as_str());
                let is_vault_alias = contains_name(vault_aliases, &snake_name);
                let is_signer_alias = contains_name(signer_aliases, &snake_name);
                proof {
                    assert(leaves_of(nodes@[i as int]) =~= seq![snake_of(name@)]);
                    assert(direct_leaves(nodes@.skip(i as int)) =~= seq![snake_of(name@)]
                        + direct_leaves(nodes@.skip(i as int + 1)));
                    assert(sub_entries(nodes@.skip(i as int), prefix@)
                        =~= sub_entries(nodes@.skip(i as int + 1), prefix@));
                    ordered.deep_view().lemma_filter_push(snake_name@, keep_filter(va, sa));
                }
                let ghost ordered_before = ordered.deep_view();
                let ghost kept_before = kept.deep_view();
                let ghost leaf_name = snake_name@;
                if !(is_vault_alias || is_signer_alias) {
                    kept.push(snake_name.clone());
                }
                ordered.push(snake_name.clone());
                direct.push(snake_name);
                proof {
                    assert(leaf_name == snake_of(name@));
                    assert(ordered.deep_view() =~= ordered_before.push(leaf_name));
                    if !va.contains(leaf_name) && !sa.contains(leaf_name) {
                        assert(kept.deep_view() =~= kept_before.push(leaf_name));
                        assert(keep_filter(va, sa)(leaf_name));
                    } else {
                        assert(!keep_filter(va, sa)(leaf_name));
                    }
                    assert(kept.deep_view() =~= ordered.deep_view().filter(keep_filter(va, sa)));
                    assert(leaves_of_list(nodes@)
                        =~= ordered.deep_view() + leaves_of_list(nodes@.skip(i as int + 1)));
                }
            },
            AccountNode::Group { name, children } => {
                proof {
                    assert(leaves_of(nodes@[i as int]) =~= leaves_of_list(node->Group_children@));
                    assert(direct_leaves(nodes@.skip(i as int))
                        =~= direct_leaves(nodes@.skip(i as int + 1)));
                    assert(sub_entries(nodes@.skip(i as int), prefix@)
                        =~= seq![EntryV {
                            path: group_path(prefix@, name@),
                            leaves: direct_leaves(node->Group_children@),
                        }]
                        + sub_entries(node->Group_children@, group_prefix(prefix@, name@))
                        + sub_entries(nodes@.skip(i as int + 1), prefix@));
                }
                let snake_g = to_snake(name.as_str());
                let pascal_g = to_pascal(name.as_str());
                let path = prefix.clone().concat("_").concat(snake_g.as_str());
                let sub_prefix = prefix.clone().concat(pascal_g.as_str());
                let mut part = flatten_nodes(children, vault_aliases, signer_aliases, &sub_prefix);
                let ghost ordered_before = ordered.deep_view();
                let ghost kept_before = kept.deep_view();
                let ghost part_ordered = part.ordered.deep_view();
                let ghost part_kept = part.kept.deep_view();
                proof {
                    Seq::<Seq<char>>::filter_distributes_over_add(
                        ordered_before,
                        part_ordered,
                        keep_filter(va, sa),
                    );
                }
                let ghost subs_before = subs.deep_view();
                ordered.append(&mut part.ordered);
                kept.append(&mut part.kept);
                subs.push(GroupEntry { path, leaves: part.direct });
                subs.append(&mut part.subs);
                proof {
                    assert(ordered.deep_view() =~= ordered_before + part_ordered);
                    assert(kept.deep_view() =~= kept_before + part_kept);
                    assert(part_kept =~= part_ordered.filter(keep_filter(va, sa)));
                    assert(kept.deep_view() =~= ordered.deep_view().filter(keep_filter(va, sa)));
                    assert(subs.deep_view() =~= subs_before
                        + seq![EntryV {
                            path: group_path(prefix@, name@),
                            leaves: direct_leaves(node->Group_children@),
                        }]
                        + sub_entries(node->Group_children@, group_prefix(prefix@, name@)));
                }
            },
        }
        i = i + 1;
    }
    proof {
        assert(nodes@.skip(n as int) =~= Seq::<AccountNode>::empty());
        assert(leaves_of_list(nodes@) =~= ordered.deep_view());
        assert(direct_leaves(nodes@) =~= direct.deep_view());
        assert(sub_entries(nodes@, prefix@) =~= subs.deep_view());
    }
    FlattenPart { ordered, kept, direct, subs }
}

/// Flattens an instruction's account tree: a depth-first, left-to-right
/// walk that records every leaf in order, keeps exactly the leaves not
/// aliased to the vault or the signer, and records for every group path the
/// leaves directly under it.
pub fn flatten_instruction(
    ix_name: &str,
    accounts: &Vec<AccountNode>,
    vault_aliases: &Vec<String>,
    signer_aliases: &Vec<String>,
) -> (r: FlattenResult)
    ensures
        r.ordered_leaf_names.deep_view() == leaves_of_list(accounts@),
        r.kept.deep_view() == kept_of_list(accounts@, vault_aliases.deep_view(), signer_aliases.deep_view()),
        r.groups.deep_view() == entries_of(accounts@, pascal_of(ix_name@)),
{
    let prefix = to_pascal(ix_name);
    let part = flatten_nodes(accounts, vault_aliases, signer_aliases, &prefix);
    let mut groups: Vec<GroupEntry> = Vec::new();
    groups.push(GroupEntry { path: "root".to_owned(), leaves: part.direct });
    let mut subs = part.subs;
    groups.append(&mut subs);
    proof {
        assert(groups.deep_view() =~= entries_of(accounts@, pascal_of(ix_name@)));
    }
    FlattenResult { ordered_leaf_names: part.ordered, kept: part.kept, groups }
}

} // verus!
