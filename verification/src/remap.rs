//! The remapping builder: per-instruction remap records and the
//! program-level remapping table, with struct deduplication across
//! instructions that share one accounts struct.

use vstd::prelude::*;
use vstd::string::StringExecFns;
use crate::casing::{snake_of, pascal_of, to_snake, to_pascal};
use crate::idl::{
    AccountNode, Instruction, leaves_of_list, kept_of_list, entries_of,
    leaf_count_list, lemma_leaf_count_list,
};
use crate::config::{GlamIxCodeGenConfig, spec_vault_aliases, spec_signer_aliases, spec_find_config, find_config};
use crate::discriminator::{spec_discriminator, compute_discriminator};
use crate::assemble::{AccuntInfo, spec_index_map, fixed_accounts_ok, fixed_wrapper_accounts, build_index_map};
use crate::flatten::{FlattenResult, flatten_instruction, contains_name};
use crate::plan::{GroupPlan, CallShape, spec_group_plans, call_shape_ok, plan_cpi_groups, call_shape};

verus! {

/// The remap record of one instruction: the source name and discriminator
/// always; the destination name, destination discriminator, account
/// descriptors and index map only when the instruction is actually proxied.
pub struct IxInfo {
    pub src_ix_name: String,
    pub src_discriminator: [u8; 8],
    pub dst_ix_name: Option<String>,
    pub dst_discriminator: Option<[u8; 8]>,
    pub dynamic_accounts: Option<Vec<AccuntInfo>>,
    pub static_accounts: Option<Vec<AccuntInfo>>,
    pub index_map: Option<Vec<i32>>,
}

/// The program-level remapping table: the persisted output artifact.
pub struct GlamIxRemapping {
    pub program_id: String,
    pub instructions: Vec<IxInfo>,
}

/// The source instruction name of a remap record: the snake-cased
/// instruction name.
pub open spec fn spec_src_name(ix_name: Seq<char>) -> Seq<char> {
    snake_of(ix_name)
}

/// The proxied instruction name: the snake-cased program name, an
/// underscore, and the snake-cased instruction name.
pub open spec fn spec_dst_name(program_name: Seq<char>, ix_name: Seq<char>) -> Seq<char> {
    snake_of(program_name) + "_"@ + snake_of(ix_name)
}

/// The resolved accounts-struct name of an instruction, before the program
/// prefix: the configured override, Pascal-cased, or the Pascal-cased
/// instruction name.
pub open spec fn spec_struct_name(ix_name: Seq<char>, cfg: Option<GlamIxCodeGenConfig>) -> Seq<char> {
    match cfg {
        Some(c) => match c.accounts_struct {
            Some(a) => pascal_of(a@),
            None => pascal_of(ix_name),
        },
        None => pascal_of(ix_name),
    }
}

/// Whether an instruction is a declared-but-unconfigured pass-through: it
/// stands in the selection list but has no configuration, so it is
/// forwarded opaquely and no remapping data is generated.
pub open spec fn spec_pass_through(listed: bool, cfg: Option<GlamIxCodeGenConfig>) -> bool {
    listed && cfg is None
}

/// The spec form of an optional borrowed configuration.
pub open spec fn opt_cfg(cfg: Option<&GlamIxCodeGenConfig>) -> Option<GlamIxCodeGenConfig> {
    match cfg {
        Some(c) => Some(*c),
        None => None,
    }
}

/// Whether a remap record is the one owed to an instruction: the source
/// fields always carry the snake-cased name and its discriminator; a
/// pass-through record carries nothing else; a proxied record carries the
/// destination name and discriminator, the four fixed descriptors, an empty
/// static account list, and the index map of the flattened leaves.
pub open spec fn ix_info_ok(
    info: IxInfo,
    ix_name: Seq<char>,
    accounts: Seq<AccountNode>,
    cfg: Option<GlamIxCodeGenConfig>,
    listed: bool,
    program_name: Seq<char>,
) -> bool {
    &&& info.src_ix_name@ == spec_src_name(ix_name)
    &&& info.src_discriminator@ == spec_discriminator(spec_src_name(ix_name))
    &&& if spec_pass_through(listed, cfg) {
        &&& info.dst_ix_name is None
        &&& info.dst_discriminator is None
        &&& info.dynamic_accounts is None
        &&& info.static_accounts is None
        &&& info.index_map is None
    } else {
        &&& match info.dst_ix_name {
            Some(d) => d@ == spec_dst_name(program_name, ix_name),
            None => false,
        }
        &&& match info.dst_discriminator {
            Some(d) => d@ == spec_discriminator(spec_dst_name(program_name, ix_name)),
            None => false,
        }
        &&& match info.dynamic_accounts {
            Some(d) => fixed_accounts_ok(d@, cfg),
            None => false,
        }
        &&& match info.static_accounts {
            Some(st) => st@.len() == 0,
            None => false,
        }
        &&& match info.index_map {
            Some(m) => m@ == spec_index_map(leaves_of_list(accounts), spec_vault_aliases(cfg), spec_signer_aliases(cfg)),
            None => false,
        }
    }
}

/// Everything the source emitter needs for one selected instruction: the
/// names, the resolved struct name and whether this instruction emits the
/// struct definition, the flattening, the index map, the fixed descriptors,
/// the per-group supply plan, and the call shape.
pub struct IxPlan {
    pub ix_name: String,
    pub src_name: String,
    pub dst_name: String,
    pub accounts_struct_name: String,
    pub emit_struct: bool,
    pub flatten: FlattenResult,
    pub index_map: Vec<i32>,
    pub fixed_accounts: Vec<AccuntInfo>,
    pub groups: Vec<GroupPlan>,
    pub shape: CallShape,
}

/// Whether a plan is the one owed to an instruction under its
/// configuration; the struct deduplication flag is stated separately, at
/// the program level.
pub open spec fn plan_ok(p: IxPlan, ix: Instruction, cfg: Option<GlamIxCodeGenConfig>, program_name: Seq<char>) -> bool {
    let va = spec_vault_aliases(cfg);
    let sa = spec_signer_aliases(cfg);
    &&& p.ix_name@ == ix.name@
    &&& p.src_name@ == spec_src_name(ix.name@)
    &&& p.dst_name@ == spec_dst_name(program_name, ix.name@)
    &&& p.accounts_struct_name@ == spec_struct_name(ix.name@, cfg)
    &&& p.flatten.ordered_leaf_names.deep_view() == leaves_of_list(ix.accounts@)
    &&& p.flatten.kept.deep_view() == kept_of_list(ix.accounts@, va, sa)
    &&& p.flatten.groups.deep_view() == entries_of(ix.accounts@, pascal_of(ix.name@))
    &&& p.index_map@ == spec_index_map(leaves_of_list(ix.accounts@), va, sa)
    &&& fixed_accounts_ok(p.fixed_accounts@, cfg)
    &&& p.groups.deep_view() == spec_group_plans(entries_of(ix.accounts@, pascal_of(ix.name@)), va, sa)
    &&& call_shape_ok(p.shape, cfg)
}

/// Resolves the accounts-struct name of an instruction: the configured
/// override or the instruction's own name, Pascal-cased.
fn resolve_struct_name(ix_name: &String, cfg: Option<&GlamIxCodeGenConfig>) -> (r: String)
    ensures
        r@ == spec_struct_name(ix_name@, opt_cfg(cfg)),
{
    match cfg {
        Some(c) => match &c.accounts_struct {
            Some(a) => to_pascal(a.as_str()),
            None => to_pascal(ix_name.as_str()),
        },
        None => to_pascal(ix_name.as_str()),
    }
}

/// Plans one selected instruction: flattens its accounts under its alias
/// sets, assembles the index map and the fixed descriptors, derives both
/// discriminators, plans the call supply, and builds the remap record — a
/// bare pass-through record when the instruction is listed but
/// unconfigured, a full one otherwise.
pub fn plan_instruction(
    ix: &Instruction,
    cfg: Option<&GlamIxCodeGenConfig>,
    listed: bool,
    program_name: &str,
    emit_struct: bool,
) -> (r: (IxPlan, IxInfo))
    requires
        leaf_count_list(ix.accounts@) + 4 <= i32::MAX as int,
    ensures
        plan_ok(r.0, *ix, opt_cfg(cfg), program_name@),
        ix_info_ok(r.1, ix.name@, ix.accounts@, opt_cfg(cfg), listed, program_name@),
        r.0.emit_struct == emit_struct,
{
    let ghost gcfg = opt_cfg(cfg);
    let empty_aliases: Vec<String> = Vec::new();
    let vault_aliases: &Vec<String> = match cfg {
        Some(c) => match &c.vault_aliases {
            Some(v) => v,
            None => &empty_aliases,
        },
        None => &empty_aliases,
    };
    let signer_aliases: &Vec<String> = match cfg {
        Some(c) => match &c.signer_aliases {
            Some(v) => v,
            None => &empty_aliases,
        },
        None => &empty_aliases,
    };
    proof {
        assert(empty_aliases.deep_view() =~= Seq::<Seq<char>>::empty());
        assert(vault_aliases.deep_view() == spec_vault_aliases(gcfg));
        assert(signer_aliases.deep_view() == spec_signer_aliases(gcfg));
    }

    let flat = flatten_instruction(ix.name.as_str(), &ix.accounts, vault_aliases, signer_aliases);
    proof {
        lemma_leaf_count_list(ix.accounts@);
    }
    let index_map = build_index_map(&flat.ordered_leaf_names, vault_aliases, signer_aliases);
    let index_map_copy = build_index_map(&flat.ordered_leaf_names, vault_aliases, signer_aliases);
    let fixed_accounts = fixed_wrapper_accounts(cfg);
    let fixed_accounts_copy = fixed_wrapper_accounts(cfg);
    let groups = plan_cpi_groups(&flat.groups, vault_aliases, signer_aliases);
    let shape = call_shape(cfg);

    let src_name = to_snake(ix.name.as_str());
    let dst_name = to_snake(program_name).concat("_").concat(src_name.as_str());
    let src_discriminator = compute_discriminator(src_name.as_str());
    let dst_discriminator = compute_discriminator(dst_name.as_str());
    let accounts_struct_name = resolve_struct_name(&ix.name, cfg);

    let info = if listed && cfg.is_none() {
        IxInfo {
            src_ix_name: src_name.clone(),
            src_discriminator,
            dst_ix_name: None,
            dst_discriminator: None,
            dynamic_accounts: None,
            static_accounts: None,
            index_map: None,
        }
    } else {
        IxInfo {
            src_ix_name: src_name.clone(),
            src_discriminator,
            dst_ix_name: Some(dst_name.clone()),
            dst_discriminator: Some(dst_discriminator),
            dynamic_accounts: Some(fixed_accounts_copy),
            static_accounts: Some(Vec::new()),
            index_map: Some(index_map_copy),
        }
    };

    let plan = IxPlan {
        ix_name: ix.name.clone(),
        src_name,
        dst_name,
        accounts_struct_name,
        emit_struct,
        flatten: flat,
        index_map,
        fixed_accounts,
        groups,
        shape,
    };
    (plan, info)
}


/// The selection predicate: with an empty selection list every instruction
/// is taken; otherwise only the listed ones.
pub open spec fn sel_filter(sel: Seq<Seq<char>>) -> spec_fn(Instruction) -> bool {
    |ix: Instruction| sel.len() == 0 || sel.contains(ix.name@)
}

/// The instructions a run processes: the interface description's
/// instruction list, in order, filtered by the selection list.
pub open spec fn spec_filtered(ixs: Seq<Instruction>, sel: Seq<Seq<char>>) -> Seq<Instruction> {
    ixs.filter(sel_filter(sel))
}

/// Whether some plan of the list resolves to the given struct name.
pub open spec fn plans_have_struct(plans: Seq<IxPlan>, n: Seq<char>) -> bool {
    exists|k: int| 0 <= k < plans.len() && plans[k].accounts_struct_name@ == n
}

/// Plans a whole program run: walks the instruction list in order, keeps
/// the selected instructions, plans each under its configuration, emits
/// each distinct accounts struct exactly once (the first instruction that
/// resolves to a struct name owns its definition), and aggregates one
/// remap record per selected instruction into the remapping table, whose
/// program id is left empty for the caller to fill.
pub fn plan_program(
    ixs: &Vec<Instruction>,
    selection: &Vec<String>,
    configs: &Vec<GlamIxCodeGenConfig>,
    program_name: &str,
) -> (r: (Vec<IxPlan>, GlamIxRemapping))
    requires
        forall|i: int| 0 <= i < ixs@.len() ==> #[trigger] leaf_count_list(ixs@[i].accounts@) + 4 <= i32::MAX as int,
    ensures
        r.1.program_id@ == Seq::<char>::empty(),
        r.0@.len() == spec_filtered(ixs@, selection.deep_view()).len(),
        r.1.instructions@.len() == r.0@.len(),
        forall|k: int| 0 <= k < r.0@.len() ==> plan_ok(
            #[trigger] r.0@[k],
            spec_filtered(ixs@, selection.deep_view())[k],
            spec_find_config(configs@, spec_filtered(ixs@, selection.deep_view())[k].name@),
            program_name@,
        ),
        forall|k: int| 0 <= k < r.0@.len() ==> ix_info_ok(
            #[trigger] r.1.instructions@[k],
            spec_filtered(ixs@, selection.deep_view())[k].name@,
            spec_filtered(ixs@, selection.deep_view())[k].accounts@,
            spec_find_config(configs@, spec_filtered(ixs@, selection.deep_view())[k].name@),
            selection.deep_view().contains(spec_filtered(ixs@, selection.deep_view())[k].name@),
            program_name@,
        ),
        forall|k: int| 0 <= k < r.0@.len() ==> ((#[trigger] r.0@[k].emit_struct)
            <==> (forall|j: int| 0 <= j < k
                ==> r.0@[j].accounts_struct_name@ != r.0@[k].accounts_struct_name@)),
{
    let ghost sel = selection.deep_view();
    let mut plans: Vec<IxPlan> = Vec::new();
    let mut infos: Vec<IxInfo> = Vec::new();
    let mut generated: Vec<String> = Vec::new();
    let n = ixs.len();
    let mut i: usize = 0;
    proof {
        assert(ixs@.take(0) =~= Seq::<Instruction>::empty());
        assert(spec_filtered(ixs@.take(0), sel) =~= Seq::<Instruction>::empty()) by {
            Seq::<Instruction>::empty().lemma_filter_len(sel_filter(sel));
        }
    }
    while i < n
        invariant
            n == ixs@.len(),
            i <= n,
            sel == selection.deep_view(),
            forall|k: int| 0 <= k < ixs@.len() ==> #[trigger] leaf_count_list(ixs@[k].accounts@) + 4 <= i32::MAX as int,
            plans@.len() == spec_filtered(ixs@.take(i as int), sel).len(),
            infos@.len() == plans@.len(),
            forall|k: int| 0 <= k < plans@.len() ==> plan_ok(
                #[trigger] plans@[k],
                spec_filtered(ixs@.take(i as int), sel)[k],
                spec_find_config(configs@, spec_filtered(ixs@.take(i as int), sel)[k].name@),
                program_name@,
            ),
            forall|k: int| 0 <= k < plans@.len() ==> ix_info_ok(
                #[trigger] infos@[k],
                spec_filtered(ixs@.take(i as int), sel)[k].name@,
                spec_filtered(ixs@.take(i as int), sel)[k].accounts@,
                spec_find_config(configs@, spec_filtered(ixs@.take(i as int), sel)[k].name@),
                sel.contains(spec_filtered(ixs@.take(i as int), sel)[k].name@),
                program_name@,
            ),
            forall|k: int| 0 <= k < plans@.len() ==> ((#[trigger] plans@[k].emit_struct)
                <==> (forall|j: int| 0 <= j < k
                    ==> plans@[j].accounts_struct_name@ != plans@[k].accounts_struct_name@)),
            forall|m: Seq<char>| #[trigger] generated.deep_view().contains(m) <==> plans_have_struct(plans@, m),
        decreases n - i,
    {
        let ghost filtered_before = spec_filtered(ixs@.take(i as int), sel);
        proof {
            ixs@.lemma_take_succ_push(i as int);
            ixs@.take(i as int).lemma_filter_push(ixs@[i as int], sel_filter(sel));
        }
        let ix = &ixs[i];
        proof {
            assert(*ix == ixs@[i as int]);
        }
        let in_sel = contains_name(selection, &ix.name);
        let selected = selection.len() == 0 || in_sel;
        proof {
            assert(sel_filter(sel)(ixs@[i as int]) == selected);
        }
        if selected {
            let cfg = find_config(configs, &ix.name);
            let ghost gcfg = opt_cfg(cfg);
            proof {
                assert(gcfg == spec_find_config(configs@, ix.name@));
            }
            let struct_name = resolve_struct_name(&ix.name, cfg);
            let ghost sname = struct_name@;
            let ghost gen_before = generated.deep_view();
            let emit = !contains_name(&generated, &struct_name);
            if emit {
                generated.push(struct_name);
            }
            proof {
                if emit {
                    assert(generated.deep_view() =~= gen_before.push(sname));
                } else {
                    assert(generated.deep_view() =~= gen_before);
                }
            }
            let (plan, info) = plan_instruction(ix, cfg, in_sel, program_name, emit);
            let ghost plans_old = plans@;
            plans.push(plan);
            infos.push(info);
            proof {
                let fi = spec_filtered(ixs@.take(i as int + 1), sel);
                assert(fi =~= filtered_before.push(ixs@[i as int]));
                assert(plans@ =~= plans_old.push(plan));
                assert(fi[plans_old.len() as int] == ixs@[i as int]);
                assert(plan_ok(plan, ixs@[i as int], gcfg, program_name@));
                assert(plan.accounts_struct_name@ == sname);
                assert forall|m: Seq<char>| #[trigger] generated.deep_view().contains(m)
                    <==> plans_have_struct(plans@, m) by {
                    if generated.deep_view().contains(m) {
                        let k = choose|k: int| 0 <= k < generated.deep_view().len() && generated.deep_view()[k] == m;
                        if emit && k == generated.deep_view().len() - 1 {
                            assert(m == sname);
                            assert(plans@[plans_old.len() as int].accounts_struct_name@ == m);
                        } else {
                            assert(gen_before[k] == m);
                            assert(gen_before.contains(m));
                            assert(plans_have_struct(plans_old, m));
                            let l = choose|l: int| 0 <= l < plans_old.len() && plans_old[l].accounts_struct_name@ == m;
                            assert(plans@[l].accounts_struct_name@ == m);
                        }
                    }
                    if plans_have_struct(plans@, m) {
                        let k = choose|k: int| 0 <= k < plans@.len() && plans@[k].accounts_struct_name@ == m;
                        if k < plans_old.len() {
                            assert(plans_old[k].accounts_struct_name@ == m);
                            assert(plans_have_struct(plans_old, m));
                            assert(gen_before.contains(m));
                            let l = choose|l: int| 0 <= l < gen_before.len() && gen_before[l] == m;
                            assert(generated.deep_view()[l] == m);
                            assert(generated.deep_view().contains(m));
                        } else {
                            assert(m == sname);
                            if emit {
                                assert(generated.deep_view()[gen_before.len() as int] == m);
                                assert(generated.deep_view().contains(m));
                            } else {
                                assert(gen_before.contains(m));
                                let l = choose|l: int| 0 <= l < gen_before.len() && gen_before[l] == m;
                                assert(generated.deep_view()[l] == m);
                                assert(generated.deep_view().contains(m));
                            }
                        }
                    }
                }
                assert(plan.emit_struct <==> (forall|j: int| 0 <= j < plans_old.len()
                    ==> plans_old[j].accounts_struct_name@ != plan.accounts_struct_name@)) by {
                    if emit {
                        assert(!gen_before.contains(sname));
                        assert(!plans_have_struct(plans_old, sname));
                        assert forall|j: int| 0 <= j < plans_old.len()
                            implies plans_old[j].accounts_struct_name@ != sname by {
                            if plans_old[j].accounts_struct_name@ == sname {
                                assert(plans_have_struct(plans_old, sname));
                            }
                        }
                    } else {
                        assert(gen_before.contains(sname));
                        assert(plans_have_struct(plans_old, sname));
                    }
                }
                assert forall|k: int| 0 <= k < plans@.len() implies ((#[trigger] plans@[k].emit_struct)
                    <==> (forall|j: int| 0 <= j < k
                        ==> plans@[j].accounts_struct_name@ != plans@[k].accounts_struct_name@)) by {
                    if k < plans_old.len() {
                        assert(plans@[k] == plans_old[k]);
                        if plans_old[k].emit_struct {
                            assert forall|j: int| 0 <= j < k
                                implies plans@[j].accounts_struct_name@ != plans@[k].accounts_struct_name@ by {
                                assert(plans_old[j].accounts_struct_name@ != plans_old[k].accounts_struct_name@);
                            }
                        } else {
                            let j = choose|j: int| 0 <= j < k
                                && plans_old[j].accounts_struct_name@ == plans_old[k].accounts_struct_name@;
                            assert(plans@[j].accounts_struct_name@ == plans@[k].accounts_struct_name@);
                        }
                    } else {
                        assert(k == plans_old.len());
                        assert(plans@[k] == plan);
                        if plan.emit_struct {
                            assert forall|j: int| 0 <= j < k
                                implies plans@[j].accounts_struct_name@ != plans@[k].accounts_struct_name@ by {
                                assert(plans_old[j].accounts_struct_name@ != plan.accounts_struct_name@);
                            }
                        } else {
                            let j = choose|j: int| 0 <= j < plans_old.len()
                                && plans_old[j].accounts_struct_name@ == plan.accounts_struct_name@;
                            assert(plans@[j].accounts_struct_name@ == plans@[k].accounts_struct_name@);
                        }
                    }
                }
            }
        } else {
            proof {
                assert(spec_filtered(ixs@.take(i as int + 1), sel) =~= filtered_before);
            }
        }
        i = i + 1;
    }
    proof {
        assert(ixs@.take(n as int) =~= ixs@);
    }
    let remapping = GlamIxRemapping { program_id: String::new(), instructions: infos };
    (plans, remapping)
}

} // verus!
