use glam_cpi_gen::idl::{AccountNode, Instruction};
use glam_cpi_gen::config::{GlamIxCodeGenConfig, StructOpts, build_struct_opts};
use glam_cpi_gen::assemble::fixed_wrapper_accounts;
use glam_cpi_gen::plan::call_shape;
use glam_cpi_gen::remap::{plan_instruction, plan_program};
use glam_cpi_gen::discriminator::compute_discriminator;

fn leaf(name: &str) -> AccountNode {
    AccountNode::Leaf { name: name.to_string(), is_mut: false, is_signer: false, is_optional: false }
}

fn instruction(name: &str, accounts: Vec<AccountNode>) -> Instruction {
    Instruction { name: name.to_string(), accounts, args: vec![] }
}

fn config(name: &str) -> GlamIxCodeGenConfig {
    GlamIxCodeGenConfig {
        ix_name: name.to_string(),
        permission: None,
        integration: None,
        remove_signer: None,
        vault_aliases: None,
        signer_aliases: None,
        accounts_struct: None,
        with_remaining_accounts: false,
        signed_by_vault: false,
        mutable_vault: false,
        mutable_state: false,
        pre_cpi: None,
        post_cpi: None,
    }
}

fn strings(v: &[&str]) -> Vec<String> {
    v.iter().map(|s| s.to_string()).collect()
}

#[test]
fn listed_but_unconfigured_instruction_is_pass_through() {
    let ix = instruction("initialize", vec![leaf("a")]);
    let (_, info) = plan_instruction(&ix, None, true, "my_prog", true);
    assert_eq!(info.src_ix_name, "initialize".to_string());
    assert_eq!(info.src_discriminator, [175, 175, 109, 31, 13, 152, 155, 237]);
    assert!(info.dst_ix_name.is_none());
    assert!(info.dst_discriminator.is_none());
    assert!(info.dynamic_accounts.is_none());
    assert!(info.static_accounts.is_none());
    assert!(info.index_map.is_none());
}

#[test]
fn configured_instruction_gets_full_remap_record() {
    let ix = instruction("initialize", vec![leaf("a"), leaf("b")]);
    let cfg = config("initialize");
    let (plan, info) = plan_instruction(&ix, Some(&cfg), true, "myProg", true);
    assert_eq!(info.src_ix_name, "initialize".to_string());
    assert_eq!(info.dst_ix_name, Some("my_prog_initialize".to_string()));
    assert_eq!(info.dst_discriminator, Some([87, 86, 55, 78, 143, 16, 61, 0]));
    assert_eq!(
        info.dst_discriminator.unwrap(),
        compute_discriminator("my_prog_initialize"),
    );
    let dynamic = info.dynamic_accounts.unwrap();
    assert_eq!(dynamic.len(), 4);
    assert_eq!(dynamic[0].name, "glam_state".to_string());
    assert_eq!(dynamic[1].name, "glam_vault".to_string());
    assert_eq!(dynamic[2].name, "glam_signer".to_string());
    assert_eq!(dynamic[3].name, "cpi_program".to_string());
    assert!(info.static_accounts.unwrap().is_empty());
    assert_eq!(info.index_map.unwrap(), vec![4, 5]);
    assert_eq!(plan.dst_name, "my_prog_initialize".to_string());
    assert_eq!(plan.accounts_struct_name, "Initialize".to_string());
}

#[test]
fn fixed_accounts_follow_mutability_flags() {
    let mut cfg = config("x");
    cfg.mutable_state = true;
    cfg.mutable_vault = false;
    let fixed = fixed_wrapper_accounts(Some(&cfg));
    assert_eq!(fixed.len(), 4);
    assert_eq!(fixed[0].index, 0);
    assert!(fixed[0].writable);
    assert!(!fixed[0].signer);
    assert_eq!(fixed[1].index, 1);
    assert!(!fixed[1].writable);
    assert_eq!(fixed[2].index, 2);
    assert!(fixed[2].writable);
    assert!(fixed[2].signer);
    assert_eq!(fixed[3].index, 3);
    assert!(!fixed[3].writable);
    assert!(!fixed[3].signer);
    let bare = fixed_wrapper_accounts(None);
    assert!(!bare[0].writable);
    assert!(!bare[1].writable);
}

#[test]
fn shared_accounts_struct_is_emitted_once() {
    let ixs = vec![
        instruction("first", vec![leaf("a")]),
        instruction("second", vec![leaf("b")]),
    ];
    let mut cfg1 = config("first");
    cfg1.accounts_struct = Some("shared".to_string());
    let mut cfg2 = config("second");
    cfg2.accounts_struct = Some("shared".to_string());
    let configs = vec![cfg1, cfg2];
    let selection = strings(&["first", "second"]);
    let (plans, remapping) = plan_program(&ixs, &selection, &configs, "prog");
    assert_eq!(plans.len(), 2);
    assert_eq!(plans[0].accounts_struct_name, "Shared".to_string());
    assert_eq!(plans[1].accounts_struct_name, "Shared".to_string());
    assert!(plans[0].emit_struct);
    assert!(!plans[1].emit_struct);
    assert_eq!(remapping.instructions.len(), 2);
    let d1 = remapping.instructions[0].dst_discriminator.unwrap();
    let d2 = remapping.instructions[1].dst_discriminator.unwrap();
    assert_ne!(d1, d2);
    assert_eq!(d1, compute_discriminator("prog_first"));
    assert_eq!(d2, compute_discriminator("prog_second"));
    assert_eq!(remapping.instructions[0].index_map.as_ref().unwrap(), &vec![4]);
    assert_eq!(remapping.instructions[1].index_map.as_ref().unwrap(), &vec![4]);
}

#[test]
fn selection_filters_and_preserves_order() {
    let ixs = vec![
        instruction("alpha", vec![leaf("a")]),
        instruction("beta", vec![leaf("b")]),
        instruction("gamma", vec![leaf("c")]),
    ];
    let configs = vec![config("alpha"), config("gamma")];
    let selection = strings(&["gamma", "alpha"]);
    let (plans, remapping) = plan_program(&ixs, &selection, &configs, "prog");
    assert_eq!(plans.len(), 2);
    assert_eq!(plans[0].ix_name, "alpha".to_string());
    assert_eq!(plans[1].ix_name, "gamma".to_string());
    assert_eq!(remapping.instructions[0].src_ix_name, "alpha".to_string());
    assert_eq!(remapping.instructions[1].src_ix_name, "gamma".to_string());
    assert_eq!(remapping.program_id, String::new());
}

#[test]
fn empty_selection_takes_every_instruction() {
    let ixs = vec![
        instruction("alpha", vec![leaf("a")]),
        instruction("beta", vec![leaf("b")]),
    ];
    let configs = vec![config("beta")];
    let selection: Vec<String> = vec![];
    let (plans, _) = plan_program(&ixs, &selection, &configs, "prog");
    assert_eq!(plans.len(), 2);
}

#[test]
fn call_shape_reads_config_flags() {
    let mut cfg = config("x");
    cfg.signed_by_vault = true;
    cfg.with_remaining_accounts = true;
    cfg.permission = Some("Transfer".to_string());
    cfg.pre_cpi = Some("check_balance".to_string());
    let shape = call_shape(Some(&cfg));
    assert!(shape.signed_by_vault);
    assert!(shape.with_remaining_accounts);
    assert_eq!(shape.permission, Some("Transfer".to_string()));
    assert_eq!(shape.integration, None);
    assert_eq!(shape.pre_cpi, Some("check_balance".to_string()));
    let bare = call_shape(None);
    assert!(!bare.signed_by_vault);
    assert!(!bare.with_remaining_accounts);
    assert!(bare.permission.is_none());
}

#[test]
fn struct_opts_merge_zero_copy_and_packed() {
    let zero_copy = strings(&["Pool", "Oracle"]);
    let packed = strings(&["Oracle", "Tick"]);
    let opts = build_struct_opts(&zero_copy, &packed);
    assert_eq!(opts.len(), 3);
    let find = |name: &str| -> StructOpts {
        let e = opts.iter().find(|e| e.name == name).unwrap();
        StructOpts { packed: e.opts.packed, zero_copy: e.opts.zero_copy }
    };
    let pool = find("Pool");
    assert!(pool.zero_copy && !pool.packed);
    let oracle = find("Oracle");
    assert!(oracle.zero_copy && oracle.packed);
    let tick = find("Tick");
    assert!(!tick.zero_copy && tick.packed);
}

#[test]
fn index_map_has_no_gaps_or_repeats() {
    let ix = instruction(
        "mixed",
        vec![leaf("w"), leaf("x"), leaf("y"), leaf("z")],
    );
    let mut cfg = config("mixed");
    cfg.vault_aliases = Some(strings(&["x"]));
    cfg.signer_aliases = Some(strings(&["z"]));
    let (plan, _) = plan_instruction(&ix, Some(&cfg), true, "prog", true);
    assert_eq!(plan.index_map, vec![4, -1, 5, -1]);
    let kept: Vec<i32> = plan.index_map.iter().copied().filter(|x| *x != -1).collect();
    assert_eq!(kept, vec![4, 5]);
}
