//! The wrapper assembler: the four fixed proxy-owned account descriptors
//! and the index map from original leaf positions to proxy-struct
//! positions.

use vstd::prelude::*;
use crate::idl::{is_dropped, keep_filter};
use crate::config::GlamIxCodeGenConfig;
use crate::flatten::contains_name;

verus! {

/// A descriptor of one account slot of the proxy struct: its name, its
/// position, and its access flags.
pub struct AccuntInfo {
    pub name: String,
    pub index: u16,
    pub writable: bool,
    pub signer: bool,
}

/// The index map over a leaf list, counting kept leaves from `next`: a
/// dropped leaf maps to `-1`; a kept leaf takes the counter value, which
/// then advances.
pub open spec fn index_map_rec(leaves: Seq<Seq<char>>, va: Seq<Seq<char>>, sa: Seq<Seq<char>>, next: int) -> Seq<i32>
    decreases leaves.len(),
{
    if leaves.len() == 0 {
        seq![]
    } else if is_dropped(leaves[0], va, sa) {
        seq![-1i32] + index_map_rec(leaves.drop_first(), va, sa, next)
    } else {
        seq![next as i32] + index_map_rec(leaves.drop_first(), va, sa, next + 1)
    }
}

/// The index map of an instruction: the four fixed wrapper accounts occupy
/// positions 0 through 3, so the first kept leaf sits at position 4.
pub open spec fn spec_index_map(leaves: Seq<Seq<char>>, va: Seq<Seq<char>>, sa: Seq<Seq<char>>) -> Seq<i32> {
    index_map_rec(leaves, va, sa, 4)
}

/// The predicate of the index-map entries of kept leaves.
pub open spec fn kept_entry() -> spec_fn(i32) -> bool {
    |x: i32| x != -1
}

proof fn lemma_index_map_rec_dense(leaves: Seq<Seq<char>>, va: Seq<Seq<char>>, sa: Seq<Seq<char>>, next: int)
    requires
        0 <= next,
        next + leaves.len() <= i32::MAX as int,
    ensures
        index_map_rec(leaves, va, sa, next).len() == leaves.len(),
        forall|i: int| 0 <= i < leaves.len()
            ==> ((#[trigger] index_map_rec(leaves, va, sa, next)[i] == -1) <==> is_dropped(leaves[i], va, sa)),
        index_map_rec(leaves, va, sa, next).filter(kept_entry())
            =~= Seq::new(leaves.filter(keep_filter(va, sa)).len(), |k: int| (next + k) as i32),
    decreases leaves.len(),
{
    broadcast use Seq::lemma_filter_prepend;

    if leaves.len() == 0 {
        assert(leaves.filter(keep_filter(va, sa)) =~= Seq::<Seq<char>>::empty());
        assert(index_map_rec(leaves, va, sa, next).filter(kept_entry())
            =~= Seq::<i32>::empty());
    } else {
        let rest = leaves.drop_first();
        assert(leaves =~= seq![leaves[0]] + rest);
        Seq::<Seq<char>>::lemma_filter_prepend(rest, leaves[0], keep_filter(va, sa));
        if is_dropped(leaves[0], va, sa) {
            lemma_index_map_rec_dense(rest, va, sa, next);
            assert(index_map_rec(leaves, va, sa, next)
                == seq![-1i32] + index_map_rec(rest, va, sa, next));
            Seq::<i32>::lemma_filter_prepend(index_map_rec(rest, va, sa, next), -1i32, kept_entry());
            assert(!keep_filter(va, sa)(leaves[0]));
            assert(leaves.filter(keep_filter(va, sa)) =~= rest.filter(keep_filter(va, sa)));
            assert(index_map_rec(leaves, va, sa, next).filter(kept_entry())
                =~= index_map_rec(rest, va, sa, next).filter(kept_entry()));
        } else {
            lemma_index_map_rec_dense(rest, va, sa, next + 1);
            assert(index_map_rec(leaves, va, sa, next)
                == seq![next as i32] + index_map_rec(rest, va, sa, next + 1));
            Seq::<i32>::lemma_filter_prepend(index_map_rec(rest, va, sa, next + 1), next as i32, kept_entry());
            assert(keep_filter(va, sa)(leaves[0]));
            assert(kept_entry()(next as i32));
            assert(leaves.filter(keep_filter(va, sa))
                =~= seq![leaves[0]] + rest.filter(keep_filter(va, sa)));
            assert(index_map_rec(leaves, va, sa, next).filter(kept_entry())
                =~= seq![next as i32] + index_map_rec(rest, va, sa, next + 1).filter(kept_entry()));
        }
    }
}

/// The index map is as long as the leaf list; an entry is `-1` exactly for
/// a dropped leaf; and the non-`-1` entries, read in leaf order, are the
/// consecutive positions 4, 5, 6, ... with no gap and no repeat.
pub proof fn lemma_index_map_dense(leaves: Seq<Seq<char>>, va: Seq<Seq<char>>, sa: Seq<Seq<char>>)
    requires
        leaves.len() + 4 <= i32::MAX as int,
    ensures
        spec_index_map(leaves, va, sa).len() == leaves.len(),
        forall|i: int| 0 <= i < leaves.len()
            ==> ((#[trigger] spec_index_map(leaves, va, sa)[i] == -1) <==> is_dropped(leaves[i], va, sa)),
        spec_index_map(leaves, va, sa).filter(kept_entry())
            =~= Seq::new(leaves.filter(keep_filter(va, sa)).len(), |k: int| (4 + k) as i32),
{
    lemma_index_map_rec_dense(leaves, va, sa, 4);
}

/// Builds the index map of an instruction: walks the ordered leaf names,
/// emits `-1` for every leaf aliased to the vault or the signer, and the
/// next free proxy position, starting at 4, for every kept leaf.
pub fn build_index_map(
    ordered_leaf_names: &Vec<String>,
    vault_aliases: &Vec<String>,
    signer_aliases: &Vec<String>,
) -> (r: Vec<i32>)
    requires
        ordered_leaf_names@.len() + 4 <= i32::MAX as int,
    ensures
        r@ == spec_index_map(ordered_leaf_names.deep_view(), vault_aliases.deep_view(), signer_aliases.deep_view()),
{
    let ghost od = ordered_leaf_names.deep_view();
    let ghost va = vault_aliases.deep_view();
    let ghost sa = signer_aliases.deep_view();
    let mut r: Vec<i32> = Vec::new();
    let mut next: i32 = 4;
    let n = ordered_leaf_names.len();
    let mut i: usize = 0;
    proof {
        assert(od.skip(0) =~= od);
    }
    while i < n
        invariant
            n == ordered_leaf_names@.len(),
            n == od.len(),
            i <= n,
            od == ordered_leaf_names.deep_view(),
            va == vault_aliases.deep_view(),
            sa == signer_aliases.deep_view(),
            n + 4 <= i32::MAX as int,
            4 <= next as int <= 4 + i,
            spec_index_map(od, va, sa) =~= r@ + index_map_rec(od.skip(i as int), va, sa, next as int),
        decreases n - i,
    {
        proof {
            assert(od.skip(i as int)[0] == od[i as int]);
            assert(od.skip(i as int).drop_first() =~= od.skip(i as int + 1));
        }
        let name = &ordered_leaf_names[i];
        proof {
            assert(name@ == od[i as int]);
        }
        let is_vault_alias = contains_name(vault_aliases, name);
        let is_signer_alias = contains_name(signer_aliases, name);
        if is_vault_alias || is_signer_alias {
            r.push(-1);
        } else {
            r.push(next);
            next = next + 1;
        }
        proof {
            assert(spec_index_map(od, va, sa)
                =~= r@ + index_map_rec(od.skip(i as int + 1), va, sa, next as int));
        }
        i = i + 1;
    }
    proof {
        assert(od.skip(n as int) =~= Seq::<Seq<char>>::empty());
        assert(spec_index_map(od, va, sa) =~= r@);
    }
    r
}

/// Whether the four fixed wrapper descriptors are the ones an optional
/// configuration calls for: program state at 0 (writable only when the
/// state is mutable), vault at 1 (writable only when the vault is mutable),
/// the always-writable signing account at 2, and the target program at 3.
pub open spec fn fixed_accounts_ok(r: Seq<AccuntInfo>, cfg: Option<GlamIxCodeGenConfig>) -> bool {
    &&& r.len() == 4
    &&& r[0].name@ == "glam_state"@
    &&& r[0].index == 0
    &&& r[0].writable == (match cfg { Some(c) => c.mutable_state, None => false })
    &&& r[0].signer == false
    &&& r[1].name@ == "glam_vault"@
    &&& r[1].index == 1
    &&& r[1].writable == (match cfg { Some(c) => c.mutable_vault, None => false })
    &&& r[1].signer == false
    &&& r[2].name@ == "glam_signer"@
    &&& r[2].index == 2
    &&& r[2].writable == true
    &&& r[2].signer == true
    &&& r[3].name@ == "cpi_program"@
    &&& r[3].index == 3
    &&& r[3].writable == false
    &&& r[3].signer == false
}

/// Builds the descriptors of the four fixed proxy-owned accounts that are
/// prepended to every proxied instruction's account struct.
pub fn fixed_wrapper_accounts(cfg: Option<&GlamIxCodeGenConfig>) -> (r: Vec<AccuntInfo>)
    ensures
        fixed_accounts_ok(r@, match cfg {
            Some(c) => Some(*c),
            None => None,
        }),
{
    let mutable_state = match cfg {
        Some(c) => c.mutable_state,
        None => false,
    };
    let mutable_vault = match cfg {
        Some(c) => c.mutable_vault,
        None => false,
    };
    let mut r: Vec<AccuntInfo> = Vec::new();
    r.push(AccuntInfo { name: "glam_state".to_owned(), index: 0, writable: mutable_state, signer: false });
    r.push(AccuntInfo { name: "glam_vault".to_owned(), index: 1, writable: mutable_vault, signer: false });
    r.push(AccuntInfo { name: "glam_signer".to_owned(), index: 2, writable: true, signer: true });
    r.push(AccuntInfo { name: "cpi_program".to_owned(), index: 3, writable: false, signer: false });
    r
}

} // verus!
