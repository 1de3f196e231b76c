use glam_cpi_gen::idl::AccountNode;
use glam_cpi_gen::flatten::flatten_instruction;
use glam_cpi_gen::assemble::build_index_map;
use glam_cpi_gen::plan::{plan_cpi_groups, SupplyKind};

fn leaf(name: &str) -> AccountNode {
    AccountNode::Leaf { name: name.to_string(), is_mut: false, is_signer: false, is_optional: false }
}

fn signer_leaf(name: &str) -> AccountNode {
    AccountNode::Leaf { name: name.to_string(), is_mut: false, is_signer: true, is_optional: false }
}

fn group(name: &str, children: Vec<AccountNode>) -> AccountNode {
    AccountNode::Group { name: name.to_string(), children }
}

fn strings(v: &[&str]) -> Vec<String> {
    v.iter().map(|s| s.to_string()).collect()
}

#[test]
fn flat_instruction_without_config() {
    let accounts = vec![leaf("a"), leaf("b")];
    let none: Vec<String> = vec![];
    let flat = flatten_instruction("swap", &accounts, &none, &none);
    assert_eq!(flat.ordered_leaf_names, strings(&["a", "b"]));
    assert_eq!(flat.kept, strings(&["a", "b"]));
    assert_eq!(flat.groups.len(), 1);
    assert_eq!(flat.groups[0].path, "root".to_string());
    assert_eq!(flat.groups[0].leaves, strings(&["a", "b"]));
    let map = build_index_map(&flat.ordered_leaf_names, &none, &none);
    assert_eq!(map, vec![4, 5]);
}

#[test]
fn vault_alias_drops_leaf_and_substitutes() {
    let accounts = vec![leaf("a"), leaf("b")];
    let vault_aliases = strings(&["a"]);
    let none: Vec<String> = vec![];
    let flat = flatten_instruction("swap", &accounts, &vault_aliases, &none);
    assert_eq!(flat.ordered_leaf_names, strings(&["a", "b"]));
    assert_eq!(flat.kept, strings(&["b"]));
    let map = build_index_map(&flat.ordered_leaf_names, &vault_aliases, &none);
    assert_eq!(map, vec![-1, 4]);
    let plans = plan_cpi_groups(&flat.groups, &vault_aliases, &none);
    assert_eq!(plans.len(), 1);
    assert_eq!(plans[0].path, "root".to_string());
    assert_eq!(plans[0].supplies.len(), 2);
    assert_eq!(plans[0].supplies[0].name, "a".to_string());
    assert_eq!(plans[0].supplies[0].kind, SupplyKind::VaultSubstitution);
    assert_eq!(plans[0].supplies[1].name, "b".to_string());
    assert_eq!(plans[0].supplies[1].kind, SupplyKind::Direct);
}

#[test]
fn nested_group_membership() {
    let accounts = vec![leaf("a"), group("g", vec![leaf("c"), leaf("d")])];
    let none: Vec<String> = vec![];
    let flat = flatten_instruction("instr", &accounts, &none, &none);
    assert_eq!(flat.ordered_leaf_names, strings(&["a", "c", "d"]));
    assert_eq!(flat.groups.len(), 2);
    assert_eq!(flat.groups[0].path, "root".to_string());
    assert_eq!(flat.groups[0].leaves, strings(&["a"]));
    assert_eq!(flat.groups[1].path, "Instr_g".to_string());
    assert_eq!(flat.groups[1].leaves, strings(&["c", "d"]));
}

#[test]
fn signer_alias_on_signer_leaf() {
    let accounts = vec![signer_leaf("s"), leaf("b")];
    let signer_aliases = strings(&["s"]);
    let none: Vec<String> = vec![];
    let flat = flatten_instruction("swap", &accounts, &none, &signer_aliases);
    assert_eq!(flat.kept, strings(&["b"]));
    let map = build_index_map(&flat.ordered_leaf_names, &none, &signer_aliases);
    assert_eq!(map, vec![-1, 4]);
    let plans = plan_cpi_groups(&flat.groups, &none, &signer_aliases);
    assert_eq!(plans[0].supplies[0].name, "s".to_string());
    assert_eq!(plans[0].supplies[0].kind, SupplyKind::SignerSubstitution);
}

#[test]
fn empty_group_keeps_membership_entry() {
    let accounts = vec![leaf("a"), group("g", vec![])];
    let none: Vec<String> = vec![];
    let flat = flatten_instruction("instr", &accounts, &none, &none);
    assert_eq!(flat.ordered_leaf_names, strings(&["a"]));
    assert_eq!(flat.groups.len(), 2);
    assert_eq!(flat.groups[1].path, "Instr_g".to_string());
    assert!(flat.groups[1].leaves.is_empty());
}

#[test]
fn leaf_names_are_snake_cased_before_alias_match() {
    let accounts = vec![leaf("myAccount"), leaf("other")];
    let vault_aliases = strings(&["my_account"]);
    let none: Vec<String> = vec![];
    let flat = flatten_instruction("swap", &accounts, &vault_aliases, &none);
    assert_eq!(flat.ordered_leaf_names, strings(&["my_account", "other"]));
    assert_eq!(flat.kept, strings(&["other"]));
}

#[test]
fn deep_nesting_builds_prefixed_paths() {
    let accounts = vec![group("outerGroup", vec![leaf("x"), group("inner", vec![leaf("y")])])];
    let none: Vec<String> = vec![];
    let flat = flatten_instruction("doIt", &accounts, &none, &none);
    assert_eq!(flat.ordered_leaf_names, strings(&["x", "y"]));
    assert_eq!(flat.groups.len(), 3);
    assert_eq!(flat.groups[0].path, "root".to_string());
    assert!(flat.groups[0].leaves.is_empty());
    assert_eq!(flat.groups[1].path, "DoIt_outer_group".to_string());
    assert_eq!(flat.groups[1].leaves, strings(&["x"]));
    assert_eq!(flat.groups[2].path, "DoItOuterGroup_inner".to_string());
    assert_eq!(flat.groups[2].leaves, strings(&["y"]));
}

#[test]
fn vault_alias_wins_over_signer_alias() {
    let accounts = vec![leaf("a")];
    let both = strings(&["a"]);
    let flat = flatten_instruction("swap", &accounts, &both, &both);
    assert_eq!(flat.kept, strings(&[]));
    let plans = plan_cpi_groups(&flat.groups, &both, &both);
    assert_eq!(plans[0].supplies[0].kind, SupplyKind::VaultSubstitution);
}

#[test]
fn kept_and_dropped_partition_the_leaves() {
    let accounts = vec![
        leaf("a"),
        group("g", vec![leaf("b"), leaf("c")]),
        leaf("d"),
    ];
    let vault_aliases = strings(&["b", "not_present"]);
    let signer_aliases = strings(&["d"]);
    let flat = flatten_instruction("swap", &accounts, &vault_aliases, &signer_aliases);
    let dropped: Vec<String> = flat
        .ordered_leaf_names
        .iter()
        .filter(|n| !flat.kept.contains(n))
        .cloned()
        .collect();
    assert_eq!(flat.ordered_leaf_names.len(), flat.kept.len() + dropped.len());
    assert_eq!(flat.kept, strings(&["a", "c"]));
    assert_eq!(dropped, strings(&["b", "d"]));
}
