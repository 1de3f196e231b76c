//! Per-instruction code generation configuration and its lookup, and the
//! per-struct layout options of the plain CPI interface.

use vstd::prelude::*;
use crate::flatten::contains_name;

verus! {

/// The configuration of one proxied instruction: alias sets, the optional
/// shared accounts-struct name, and the call-shape flags.
pub struct GlamIxCodeGenConfig {
    pub ix_name: String,
    pub permission: Option<String>,
    pub integration: Option<String>,
    pub remove_signer: Option<Vec<String>>,
    pub vault_aliases: Option<Vec<String>>,
    pub signer_aliases: Option<Vec<String>>,
    pub accounts_struct: Option<String>,
    pub with_remaining_accounts: bool,
    pub signed_by_vault: bool,
    pub mutable_vault: bool,
    pub mutable_state: bool,
    pub pre_cpi: Option<String>,
    pub post_cpi: Option<String>,
}

/// The vault alias names of an optional configuration; empty when absent.
pub open spec fn spec_vault_aliases(cfg: Option<GlamIxCodeGenConfig>) -> Seq<Seq<char>> {
    match cfg {
        Some(c) => match c.vault_aliases {
            Some(v) => v.deep_view(),
            None => seq![],
        },
        None => seq![],
    }
}

/// The signer alias names of an optional configuration; empty when absent.
pub open spec fn spec_signer_aliases(cfg: Option<GlamIxCodeGenConfig>) -> Seq<Seq<char>> {
    match cfg {
        Some(c) => match c.signer_aliases {
            Some(v) => v.deep_view(),
            None => seq![],
        },
        None => seq![],
    }
}

/// The first configuration whose instruction name equals `name`.
pub open spec fn spec_find_config(s: Seq<GlamIxCodeGenConfig>, name: Seq<char>) -> Option<GlamIxCodeGenConfig>
    decreases s.len(),
{
    if s.len() == 0 {
        None
    } else if s[0].ix_name@ == name {
        Some(s[0])
    } else {
        spec_find_config(s.drop_first(), name)
    }
}

/// Looks up the configuration of an instruction by name; the first match
/// wins.
pub fn find_config<'a>(configs: &'a Vec<GlamIxCodeGenConfig>, name: &String) -> (r: Option<&'a GlamIxCodeGenConfig>)
    ensures
        match r {
            Some(c) => spec_find_config(configs@, name@) == Some(*c),
            None => spec_find_config(configs@, name@) is None,
        },
{
    let n = configs.len();
    let mut i: usize = 0;
    proof {
        assert(configs@.skip(0) =~= configs@);
    }
    while i < n
        invariant
            n == configs@.len(),
            i <= n,
            spec_find_config(configs@, name@) == spec_find_config(configs@.skip(i as int), name@),
        decreases n - i,
    {
        proof {
            assert(configs@.skip(i as int)[0] == configs@[i as int]);
            assert(configs@.skip(i as int).drop_first() =~= configs@.skip(i as int + 1));
        }
        let c = &configs[i];
        if c.ix_name.eq(name) {
            return Some(c);
        }
        i = i + 1;
    }
    proof {
        assert(configs@.skip(n as int) =~= Seq::<GlamIxCodeGenConfig>::empty());
    }
    None
}

/// Layout options of one generated struct of the plain CPI interface.
pub struct StructOpts {
    pub packed: bool,
    pub zero_copy: bool,
}

/// One resolved entry of the struct layout options table.
pub struct StructOptsEntry {
    pub name: String,
    pub opts: StructOpts,
}

/// Whether some entry of the table bears the given name.
pub open spec fn has_name(r: Seq<StructOptsEntry>, n: Seq<char>) -> bool {
    exists|k: int| 0 <= k < r.len() && r[k].name@ == n
}

/// Builds the struct layout options table from the zero-copy and packed
/// struct name lists: one entry per distinct name, flagged with the lists
/// that contain it.
pub fn build_struct_opts(zero_copy: &Vec<String>, packed: &Vec<String>) -> (r: Vec<StructOptsEntry>)
    ensures
        forall|i: int, j: int| 0 <= i < j < r@.len() ==> r@[i].name@ != r@[j].name@,
        forall|i: int| 0 <= i < r@.len() ==> {
            &&& r@[i].opts.zero_copy == zero_copy.deep_view().contains(r@[i].name@)
            &&& r@[i].opts.packed == packed.deep_view().contains(r@[i].name@)
            &&& (zero_copy.deep_view().contains(r@[i].name@) || packed.deep_view().contains(r@[i].name@))
        },
        forall|n: Seq<char>|
            zero_copy.deep_view().contains(n) || packed.deep_view().contains(n)
                ==> #[trigger] has_name(r@, n),
{
    let mut r: Vec<StructOptsEntry> = Vec::new();
    let mut seen: Vec<String> = Vec::new();
    let zn = zero_copy.len();
    let mut i: usize = 0;
    while i < zn
        invariant
            zn == zero_copy@.len(),
            i <= zn,
            seen@.len() == r@.len(),
            forall|k: int| 0 <= k < r@.len() ==> seen.deep_view()[k] == r@[k].name@,
            forall|k: int, l: int| 0 <= k < l < r@.len() ==> r@[k].name@ != r@[l].name@,
            forall|k: int| 0 <= k < r@.len() ==> {
                &&& r@[k].opts.zero_copy == zero_copy.deep_view().contains(r@[k].name@)
                &&& r@[k].opts.packed == packed.deep_view().contains(r@[k].name@)
                &&& zero_copy.deep_view().contains(r@[k].name@)
            },
            forall|j: int| 0 <= j < i ==> has_name(r@, #[trigger] zero_copy.deep_view()[j]),
        decreases zn - i,
    {
        let name = &zero_copy[i];
        if !contains_name(&seen, name) {
            let zc = contains_name(zero_copy, name);
            let pk = contains_name(packed, name);
            let ghost r_old = r@;
            let ghost seen_old = seen.deep_view();
            seen.push(name.clone());
            r.push(StructOptsEntry { name: name.clone(), opts: StructOpts { packed: pk, zero_copy: zc } });
            proof {
                assert(zero_copy.deep_view()[i as int] == name@);
                assert(seen.deep_view() =~= seen_old.push(name@));
                assert forall|n: Seq<char>| has_name(r_old, n) implies has_name(r@, n) by {
                    let k = choose|k: int| 0 <= k < r_old.len() && r_old[k].name@ == n;
                    assert(r@[k].name@ == n);
                }
                assert(has_name(r@, name@)) by {
                    assert(r@[r_old.len() as int].name@ == name@);
                }
                assert forall|k: int| 0 <= k < r_old.len() implies r@[k].name@ != name@ by {
                    assert(seen_old[k] == r_old[k].name@);
                    if r_old[k].name@ == name@ {
                        assert(seen_old.contains(name@));
                    }
                }
            }
        } else {
            proof {
                assert(seen.deep_view().contains(name@));
                let k = choose|k: int| 0 <= k < seen.deep_view().len() && seen.deep_view()[k] == name@;
                assert(r@[k].name@ == zero_copy.deep_view()[i as int]);
                assert(has_name(r@, zero_copy.deep_view()[i as int]));
            }
        }
        i = i + 1;
    }
    let pn = packed.len();
    let mut j: usize = 0;
    while j < pn
        invariant
            pn == packed@.len(),
            j <= pn,
            seen@.len() == r@.len(),
            forall|k: int| 0 <= k < r@.len() ==> seen.deep_view()[k] == r@[k].name@,
            forall|k: int, l: int| 0 <= k < l < r@.len() ==> r@[k].name@ != r@[l].name@,
            forall|k: int| 0 <= k < r@.len() ==> {
                &&& r@[k].opts.zero_copy == zero_copy.deep_view().contains(r@[k].name@)
                &&& r@[k].opts.packed == packed.deep_view().contains(r@[k].name@)
                &&& (zero_copy.deep_view().contains(r@[k].name@) || packed.deep_view().contains(r@[k].name@))
            },
            forall|l: int| 0 <= l < zero_copy.deep_view().len()
                ==> has_name(r@, #[trigger] zero_copy.deep_view()[l]),
            forall|l: int| 0 <= l < j ==> has_name(r@, #[trigger] packed.deep_view()[l]),
        decreases pn - j,
    {
        let name = &packed[j];
        if !contains_name(&seen, name) {
            let zc = contains_name(zero_copy, name);
            let pk = contains_name(packed, name);
            let ghost r_old = r@;
            let ghost seen_old = seen.deep_view();
            seen.push(name.clone());
            r.push(StructOptsEntry { name: name.clone(), opts: StructOpts { packed: pk, zero_copy: zc } });
            proof {
                assert(packed.deep_view()[j as int] == name@);
                assert(seen.deep_view() =~= seen_old.push(name@));
                assert forall|n: Seq<char>| has_name(r_old, n) implies has_name(r@, n) by {
                    let k = choose|k: int| 0 <= k < r_old.len() && r_old[k].name@ == n;
                    assert(r@[k].name@ == n);
                }
                assert(has_name(r@, name@)) by {
                    assert(r@[r_old.len() as int].name@ == name@);
                }
                assert forall|k: int| 0 <= k < r_old.len() implies r@[k].name@ != name@ by {
                    assert(seen_old[k] == r_old[k].name@);
                    if r_old[k].name@ == name@ {
                        assert(seen_old.contains(name@));
                    }
                }
            }
        } else {
            proof {
                assert(seen.deep_view().contains(name@));
                let k = choose|k: int| 0 <= k < seen.deep_view().len() && seen.deep_view()[k] == name@;
                assert(r@[k].name@ == packed.deep_view()[j as int]);
                assert(has_name(r@, packed.deep_view()[j as int]));
            }
        }
        j = j + 1;
    }
    proof {
        assert forall|n: Seq<char>|
            zero_copy.deep_view().contains(n) || packed.deep_view().contains(n)
                implies #[trigger] has_name(r@, n) by {
            if zero_copy.deep_view().contains(n) {
                let l = choose|l: int| 0 <= l < zero_copy.deep_view().len() && zero_copy.deep_view()[l] == n;
                assert(has_name(r@, zero_copy.deep_view()[l]));
            } else {
                let l = choose|l: int| 0 <= l < packed.deep_view().len() && packed.deep_view()[l] == n;
                assert(has_name(r@, packed.deep_view()[l]));
            }
        }
    }
    r
}

} // verus!
