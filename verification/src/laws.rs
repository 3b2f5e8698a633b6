//! The laws of the hasher, stated over the model and proved once and for
//! all: determinism under any consistent session, module-order independence,
//! variant-order insensitivity, and session consistency.

use vstd::prelude::*;
use vstd::seq_lib::{group_to_multiset_ensures, lemma_sorted_unique, to_multiset_remove};
use vstd::utf8::encode_utf8;
use crate::schema::{ModuleSchemaV, RootSchemaV, TypeDefinitionV, TypeDefKindV, VariantV};
use crate::hasher::{s_type_def_hash, s_variants_bytes};
use crate::order::{
    byte_leq, lemma_byte_leq_total_ordering, lemma_pair_leq_total_ordering, name_key_pairs,
    pair_leq, sort_digests, variant_order,
};
use crate::compose::{
    s_hash_modules, s_metadata_hash, s_metadata_hash_cached, s_pallet_cached, s_pallet_hash,
};

verus! {

/// Multiset-equal sequences stay multiset-equal under a pointwise map.
pub proof fn lemma_map_values_multiset<A, B>(s: Seq<A>, t: Seq<A>, f: spec_fn(A) -> B)
    requires
        s.to_multiset() == t.to_multiset(),
    ensures
        s.map_values(f).to_multiset() == t.map_values(f).to_multiset(),
    decreases s.len(),
{
    broadcast use group_to_multiset_ensures;
    broadcast use vstd::multiset::group_multiset_axioms;

    if s.len() == 0 {
        assert(t.to_multiset().len() == 0);
        assert(s.map_values(f) =~= Seq::<B>::empty());
        assert(t.map_values(f) =~= Seq::<B>::empty());
    } else {
        let x = s[0];
        assert(s.to_multiset().contains(x));
        assert(t.to_multiset().contains(x));
        assert(t.contains(x));
        let j = choose|j: int| 0 <= j < t.len() && t[j] == x;
        to_multiset_remove(s, 0);
        to_multiset_remove(t, j);
        assert(s.remove(0) =~= s.drop_first());
        lemma_map_values_multiset(s.drop_first(), t.remove(j), f);
        let ms = s.map_values(f);
        let mt = t.map_values(f);
        assert(ms.remove(0) =~= s.drop_first().map_values(f));
        assert(mt.remove(j) =~= t.remove(j).map_values(f));
        to_multiset_remove(ms, 0);
        to_multiset_remove(mt, j);
        assert(ms[0] == f(x));
        assert(mt[j] == f(x));
        assert(ms.to_multiset().remove(f(x)) == mt.to_multiset().remove(f(x)));
        assert(ms.to_multiset().contains(f(x)));
        assert(mt.to_multiset().contains(f(x)));
        assert forall|b: B| true implies ms.to_multiset().count(b) == mt.to_multiset().count(b) by {
            if b == f(x) {
                assert(ms.to_multiset().remove(f(x)).count(b) == ms.to_multiset().count(b) - 1);
                assert(mt.to_multiset().remove(f(x)).count(b) == mt.to_multiset().count(b) - 1);
            } else {
                assert(ms.to_multiset().remove(f(x)).count(b) == ms.to_multiset().count(b));
                assert(mt.to_multiset().remove(f(x)).count(b) == mt.to_multiset().count(b));
            }
        }
        assert(ms.to_multiset() =~= mt.to_multiset());
    }
}

/// The digest list of a module list, with no session involved; the first
/// failing module carries the error.
pub open spec fn s_modules_pure(reg: Seq<(u32, TypeDefinitionV)>, mods: Seq<ModuleSchemaV>) -> Result<
    Seq<Seq<u8>>,
    u32,
>
    decreases mods.len(),
{
    if mods.len() == 0 {
        Result::Ok(Seq::empty())
    } else {
        match s_pallet_hash(reg, mods[0]) {
            Result::Err(e) => Result::Err(e),
            Result::Ok(d) => match s_modules_pure(reg, mods.drop_first()) {
                Result::Err(e) => Result::Err(e),
                Result::Ok(ds) => Result::Ok(seq![d] + ds),
            },
        }
    }
}

/// Every module of the list hashes successfully.
pub open spec fn all_modules_ok(reg: Seq<(u32, TypeDefinitionV)>, mods: Seq<ModuleSchemaV>) -> bool {
    forall|i: int| 0 <= i < mods.len() ==> s_pallet_hash(reg, #[trigger] mods[i]) is Ok
}

/// A session is consistent with a module list when every digest it memoizes
/// under one of the list's module names is that module's true digest.
pub open spec fn session_consistent(
    cache: Map<Seq<char>, Seq<u8>>,
    reg: Seq<(u32, TypeDefinitionV)>,
    mods: Seq<ModuleSchemaV>,
) -> bool {
    forall|i: int|
        0 <= i < mods.len() && cache.contains_key((#[trigger] mods[i]).name)
            ==> s_pallet_hash(reg, mods[i]) == Result::<Seq<u8>, u32>::Ok(cache[mods[i].name])
}

/// Modules that share a name have the same digest.  This is the calling
/// convention that makes one session reusable across the list; it holds in
/// particular whenever module names are distinct.
pub open spec fn coherent_names(reg: Seq<(u32, TypeDefinitionV)>, mods: Seq<ModuleSchemaV>) -> bool {
    forall|i: int, j: int|
        0 <= i < mods.len() && 0 <= j < mods.len() && (#[trigger] mods[i]).name == (
        #[trigger] mods[j]).name ==> s_pallet_hash(reg, mods[i]) == s_pallet_hash(reg, mods[j])
}

/// A successful pure run lists exactly the modules' own digests.
pub proof fn lemma_modules_pure_ok(reg: Seq<(u32, TypeDefinitionV)>, mods: Seq<ModuleSchemaV>)
    ensures
        s_modules_pure(reg, mods) is Ok <==> all_modules_ok(reg, mods),
        s_modules_pure(reg, mods) is Ok ==> s_modules_pure(reg, mods) == Result::<
            Seq<Seq<u8>>,
            u32,
        >::Ok(mods.map_values(|m: ModuleSchemaV| s_pallet_hash(reg, m)->Ok_0)),
    decreases mods.len(),
{
    if mods.len() == 0 {
        assert(mods.map_values(|m: ModuleSchemaV| s_pallet_hash(reg, m)->Ok_0) =~= Seq::<
            Seq<u8>,
        >::empty());
    } else {
        lemma_modules_pure_ok(reg, mods.drop_first());
        assert(forall|i: int|
            0 <= i < mods.drop_first().len() ==> #[trigger] mods.drop_first()[i] == mods[i + 1]);
        if s_pallet_hash(reg, mods[0]) is Ok && s_modules_pure(reg, mods.drop_first()) is Ok {
            assert forall|i: int| 0 <= i < mods.len() implies s_pallet_hash(
                reg,
                #[trigger] mods[i],
            ) is Ok by {
                if i > 0 {
                    assert(mods.drop_first()[i - 1] == mods[i]);
                }
            }
            assert(all_modules_ok(reg, mods));
            assert(mods.map_values(|m: ModuleSchemaV| s_pallet_hash(reg, m)->Ok_0) =~= seq![
                s_pallet_hash(reg, mods[0])->Ok_0,
            ] + mods.drop_first().map_values(|m: ModuleSchemaV| s_pallet_hash(reg, m)->Ok_0));
        }
        if all_modules_ok(reg, mods) {
            assert(s_pallet_hash(reg, mods[0]) is Ok);
            assert(all_modules_ok(reg, mods.drop_first()));
        }
    }
}

/// Under a consistent session the run returns the pure digests, and every
/// entry of the resulting session is either inherited or a true digest of
/// one of the modules.
pub proof fn lemma_hash_modules_consistent(
    cache: Map<Seq<char>, Seq<u8>>,
    reg: Seq<(u32, TypeDefinitionV)>,
    mods: Seq<ModuleSchemaV>,
)
    requires
        session_consistent(cache, reg, mods),
        coherent_names(reg, mods),
    ensures
        s_hash_modules(cache, reg, mods).0 == s_modules_pure(reg, mods),
        forall|k: Seq<char>|
            (#[trigger] s_hash_modules(cache, reg, mods).1.contains_key(k)) ==> (
            cache.contains_key(k) && s_hash_modules(cache, reg, mods).1[k] == cache[k]) || (
            exists|i: int|
                0 <= i < mods.len() && (#[trigger] mods[i]).name == k && s_pallet_hash(reg, mods[i])
                    == Result::<Seq<u8>, u32>::Ok(s_hash_modules(cache, reg, mods).1[k])),
    decreases mods.len(),
{
    if mods.len() == 0 {
    } else {
        let m0 = mods[0];
        let head = s_pallet_cached(cache, reg, m0);
        assert(forall|i: int|
            0 <= i < mods.drop_first().len() ==> #[trigger] mods.drop_first()[i] == mods[i + 1]);
        assert forall|i: int, j: int|
            0 <= i < mods.drop_first().len() && 0 <= j < mods.drop_first().len() && (
            #[trigger] mods.drop_first()[i]).name == (#[trigger] mods.drop_first()[j]).name implies
            s_pallet_hash(reg, mods.drop_first()[i]) == s_pallet_hash(
            reg,
            mods.drop_first()[j],
        ) by {
            assert(mods.drop_first()[i] == mods[i + 1] && mods.drop_first()[j] == mods[j + 1]);
        }
        assert(coherent_names(reg, mods.drop_first()));
        match head.0 {
            Result::Err(_) => {
                assert(!cache.contains_key(m0.name));
                assert(s_pallet_hash(reg, m0) is Err);
            },
            Result::Ok(d) => {
                if cache.contains_key(m0.name) {
                    assert(s_pallet_hash(reg, m0) == Result::<Seq<u8>, u32>::Ok(cache[m0.name]));
                    assert(head.1 == cache);
                    assert(session_consistent(cache, reg, mods.drop_first()));
                    lemma_hash_modules_consistent(cache, reg, mods.drop_first());
                } else {
                    assert(s_pallet_hash(reg, m0) == Result::<Seq<u8>, u32>::Ok(d));
                    let c1 = cache.insert(m0.name, d);
                    assert(head.1 == c1);
                    assert forall|i: int|
                        0 <= i < mods.drop_first().len() && c1.contains_key(
                            (#[trigger] mods.drop_first()[i]).name,
                        ) implies s_pallet_hash(reg, mods.drop_first()[i]) == Result::<
                        Seq<u8>,
                        u32,
                    >::Ok(c1[mods.drop_first()[i].name]) by {
                        let mi = mods.drop_first()[i];
                        if mi.name == m0.name {
                            assert(s_pallet_hash(reg, mi) == s_pallet_hash(reg, m0)) by {
                                assert(mods[i + 1] == mi && mods[0] == m0);
                            }
                        } else {
                            assert(cache.contains_key(mi.name));
                        }
                    }
                    lemma_hash_modules_consistent(c1, reg, mods.drop_first());
                }
            },
        }
    }
}

/// Determinism: under any session consistent with the schema (the fresh,
/// empty session among them), the whole-schema digest is the one fixed
/// digest of the schema, whatever the session held before.
pub proof fn lemma_metadata_hash_deterministic(
    root: RootSchemaV,
    c1: Map<Seq<char>, Seq<u8>>,
    c2: Map<Seq<char>, Seq<u8>>,
)
    requires
        session_consistent(c1, root.types, root.pallets),
        session_consistent(c2, root.types, root.pallets),
        coherent_names(root.types, root.pallets),
    ensures
        s_metadata_hash_cached(c1, root).0 == s_metadata_hash_cached(c2, root).0,
        s_metadata_hash_cached(c1, root).0 == s_metadata_hash(root),
{
    lemma_hash_modules_consistent(c1, root.types, root.pallets);
    lemma_hash_modules_consistent(c2, root.types, root.pallets);
    assert(session_consistent(Map::empty(), root.types, root.pallets));
    lemma_hash_modules_consistent(Map::empty(), root.types, root.pallets);
}

/// A fresh session is consistent with every schema.
pub proof fn lemma_fresh_session_consistent(root: RootSchemaV)
    ensures
        session_consistent(Map::empty(), root.types, root.pallets),
{
}

/// A run leaves the session consistent again: every memoized digest is the
/// true digest of a module of the schema, so the session may warm the next
/// run over the same schema.
pub proof fn lemma_run_preserves_consistency(cache: Map<Seq<char>, Seq<u8>>, root: RootSchemaV)
    requires
        session_consistent(cache, root.types, root.pallets),
        coherent_names(root.types, root.pallets),
    ensures
        session_consistent(s_metadata_hash_cached(cache, root).1, root.types, root.pallets),
{
    let reg = root.types;
    let mods = root.pallets;
    lemma_hash_modules_consistent(cache, reg, mods);
    let c1 = s_hash_modules(cache, reg, mods).1;
    assert(s_metadata_hash_cached(cache, root).1 == c1);
    assert forall|i: int|
        0 <= i < mods.len() && c1.contains_key((#[trigger] mods[i]).name) implies s_pallet_hash(
        reg,
        mods[i],
    ) == Result::<Seq<u8>, u32>::Ok(c1[mods[i].name]) by {
        let k = mods[i].name;
        assert(c1.contains_key(k));
        if cache.contains_key(k) && c1[k] == cache[k] {
        } else {
            let j = choose|j: int|
                0 <= j < mods.len() && (#[trigger] mods[j]).name == k && s_pallet_hash(reg, mods[j])
                    == Result::<Seq<u8>, u32>::Ok(c1[k]);
            assert(s_pallet_hash(reg, mods[i]) == s_pallet_hash(reg, mods[j]));
        }
    }
}

/// Module-order independence: permuting the declared module order, with
/// every module's content unchanged, leaves the whole-schema digest as it
/// was.
pub proof fn lemma_metadata_hash_module_order_independent(root1: RootSchemaV, root2: RootSchemaV)
    requires
        root2.types == root1.types,
        root2.extrinsic == root1.extrinsic,
        root2.ty == root1.ty,
        root2.pallets.to_multiset() == root1.pallets.to_multiset(),
        coherent_names(root1.types, root1.pallets),
        s_metadata_hash(root1) is Ok,
    ensures
        s_metadata_hash(root2) == s_metadata_hash(root1),
{
    broadcast use group_to_multiset_ensures;
    broadcast use vstd::multiset::group_multiset_axioms;

    let reg = root1.types;
    let mods1 = root1.pallets;
    let mods2 = root2.pallets;
    assert forall|i: int| 0 <= i < mods2.len() implies mods1.contains(#[trigger] mods2[i]) by {
        assert(mods2.contains(mods2[i]) && mods2.to_multiset().count(mods2[i]) > 0);
        assert(mods1.to_multiset().count(mods2[i]) > 0);
    }
    assert forall|i: int, j: int|
        0 <= i < mods2.len() && 0 <= j < mods2.len() && (#[trigger] mods2[i]).name == (
        #[trigger] mods2[j]).name implies s_pallet_hash(reg, mods2[i]) == s_pallet_hash(
        reg,
        mods2[j],
    ) by {
        let a = choose|a: int| 0 <= a < mods1.len() && mods1[a] == mods2[i];
        let b = choose|b: int| 0 <= b < mods1.len() && mods1[b] == mods2[j];
        assert(s_pallet_hash(reg, mods1[a]) == s_pallet_hash(reg, mods1[b]));
    }
    assert(coherent_names(reg, mods2));
    lemma_hash_modules_consistent(Map::empty(), reg, mods1);
    lemma_hash_modules_consistent(Map::empty(), reg, mods2);
    lemma_modules_pure_ok(reg, mods1);
    lemma_modules_pure_ok(reg, mods2);
    assert(s_modules_pure(reg, mods1) is Ok);
    assert forall|i: int| 0 <= i < mods2.len() implies s_pallet_hash(
        reg,
        #[trigger] mods2[i],
    ) is Ok by {
        let j = choose|j: int| 0 <= j < mods1.len() && mods1[j] == mods2[i];
        assert(s_pallet_hash(reg, mods1[j]) is Ok);
    }
    assert(all_modules_ok(reg, mods2));
    let f = |m: ModuleSchemaV| s_pallet_hash(reg, m)->Ok_0;
    let ds1 = mods1.map_values(f);
    let ds2 = mods2.map_values(f);
    lemma_map_values_multiset(mods1, mods2, f);
    lemma_byte_leq_total_ordering();
    ds1.lemma_sort_by_ensures(byte_leq());
    ds2.lemma_sort_by_ensures(byte_leq());
    assert(ds1.sort_by(byte_leq()).to_multiset() == ds2.sort_by(byte_leq()).to_multiset());
    lemma_sorted_unique(ds1.sort_by(byte_leq()), ds2.sort_by(byte_leq()), byte_leq());
    assert(sort_digests(ds1) == sort_digests(ds2));
}

/// The hashing order of a variant list is a permutation of it, ascending in
/// the names' UTF-8 bytes.
pub proof fn lemma_variant_order_props(vars: Seq<VariantV>)
    ensures
        variant_order(vars).to_multiset() == vars.to_multiset(),
        variant_order(vars).len() == vars.len(),
        forall|k: int, l: int|
            0 <= k < l < vars.len() ==> crate::order::bytes_le(
                encode_utf8(#[trigger] variant_order(vars)[k].name),
                encode_utf8(#[trigger] variant_order(vars)[l].name),
            ),
{
    broadcast use group_to_multiset_ensures;

    let pairs = name_key_pairs(vars);
    lemma_pair_leq_total_ordering();
    pairs.lemma_sort_by_ensures(pair_leq());
    let sorted = pairs.sort_by(pair_leq());
    vstd::seq_lib::to_multiset_len(pairs);
    vstd::seq_lib::to_multiset_len(sorted);
    assert(sorted.len() == pairs.len());
    let vo = variant_order(vars);
    let g = |p: (Seq<u8>, int)| vars[p.1];
    assert forall|k: int| 0 <= k < vars.len() implies vo[k] == sorted.map_values(g)[k] by {
        assert(sorted.map_values(g)[k] == g(sorted[k]));
    }
    assert(vo =~= sorted.map_values(g));
    assert forall|k: int| 0 <= k < vars.len() implies vars[k] == pairs.map_values(g)[k] by {
        assert(pairs.map_values(g)[k] == g(pairs[k]));
        assert(pairs[k] == (encode_utf8(vars[k].name), k));
    }
    assert(vars =~= pairs.map_values(g));
    lemma_map_values_multiset(sorted, pairs, g);
    assert forall|k: int| 0 <= k < vars.len() implies (#[trigger] sorted[k]).0 == encode_utf8(
        vo[k].name,
    ) && 0 <= sorted[k].1 < vars.len() by {
        assert(sorted.contains(sorted[k]));
        assert(pairs.contains(sorted[k]));
        let m = choose|m: int| 0 <= m < pairs.len() && pairs[m] == sorted[k];
        assert(pairs[m] == (encode_utf8(vars[m].name), m));
        assert(vo[k] == vars[sorted[k].1]);
    }
    assert forall|k: int, l: int| 0 <= k < l < vars.len() implies crate::order::bytes_le(
        encode_utf8(#[trigger] vo[k].name),
        encode_utf8(#[trigger] vo[l].name),
    ) by {
        assert(pair_leq()(sorted[k], sorted[l]));
        if sorted[k].0 == sorted[l].0 {
            crate::order::lemma_bytes_le_refl(sorted[k].0);
        }
    }
}

/// Pairwise distinct variant names.
pub open spec fn distinct_variant_names(vars: Seq<VariantV>) -> bool {
    vars.map_values(|v: VariantV| v.name).no_duplicates()
}

/// Two name-sorted variant lists with the same variants and distinct names
/// are the same list.
proof fn lemma_sorted_names_unique(x: Seq<VariantV>, y: Seq<VariantV>)
    requires
        x.to_multiset() == y.to_multiset(),
        distinct_variant_names(x),
        forall|k: int, l: int|
            0 <= k < l < x.len() ==> crate::order::bytes_le(
                encode_utf8(#[trigger] x[k].name),
                encode_utf8(#[trigger] x[l].name),
            ),
        forall|k: int, l: int|
            0 <= k < l < y.len() ==> crate::order::bytes_le(
                encode_utf8(#[trigger] y[k].name),
                encode_utf8(#[trigger] y[l].name),
            ),
    ensures
        x == y,
    decreases x.len(),
{
    broadcast use group_to_multiset_ensures;
    broadcast use vstd::multiset::group_multiset_axioms;

    if x.len() == 0 {
        assert(y.to_multiset().len() == 0);
        assert(x =~= y);
    } else {
        vstd::seq_lib::to_multiset_len(x);
        vstd::seq_lib::to_multiset_len(y);
        assert(y.to_multiset().len() == x.to_multiset().len());
        assert(y.len() > 0);
        assert(y.contains(y[0]) && y.to_multiset().count(y[0]) > 0);
        assert(x.to_multiset().count(y[0]) > 0);
        assert(x.contains(y[0]));
        let i = choose|i: int| 0 <= i < x.len() && x[i] == y[0];
        assert(x.contains(x[0]) && x.to_multiset().count(x[0]) > 0);
        assert(y.to_multiset().count(x[0]) > 0);
        assert(y.contains(x[0]));
        let j = choose|j: int| 0 <= j < y.len() && y[j] == x[0];
        if i > 0 {
            assert(crate::order::bytes_le(encode_utf8(x[0].name), encode_utf8(x[i].name)));
            if j > 0 {
                assert(crate::order::bytes_le(encode_utf8(y[0].name), encode_utf8(y[j].name)));
                crate::order::lemma_bytes_le_antisym(
                    encode_utf8(x[0].name),
                    encode_utf8(x[i].name),
                );
                vstd::utf8::encode_utf8_decode_utf8(x[0].name);
                vstd::utf8::encode_utf8_decode_utf8(x[i].name);
                assert(x[0].name == x[i].name);
                let names = x.map_values(|v: VariantV| v.name);
                assert(names[0] == names[i]);
                assert(false);
            } else {
                assert(y[0] == x[0]);
                let names = x.map_values(|v: VariantV| v.name);
                assert(names[0] == names[i]);
                assert(false);
            }
        }
        assert(x[0] == y[0]);
        to_multiset_remove(x, 0);
        to_multiset_remove(y, 0);
        assert(x.remove(0) =~= x.drop_first());
        assert(y.remove(0) =~= y.drop_first());
        let names = x.map_values(|v: VariantV| v.name);
        assert(x.drop_first().map_values(|v: VariantV| v.name) =~= names.drop_first());
        assert(names.drop_first().no_duplicates());
        assert(forall|k: int, l: int|
            0 <= k < l < x.drop_first().len() ==> crate::order::bytes_le(
                encode_utf8(#[trigger] x.drop_first()[k].name),
                encode_utf8(#[trigger] x.drop_first()[l].name),
            ));
        assert(forall|k: int, l: int|
            0 <= k < l < y.drop_first().len() ==> crate::order::bytes_le(
                encode_utf8(#[trigger] y.drop_first()[k].name),
                encode_utf8(#[trigger] y.drop_first()[l].name),
            ));
        lemma_sorted_names_unique(x.drop_first(), y.drop_first());
        assert(x =~= seq![x[0]] + x.drop_first());
        assert(y =~= seq![y[0]] + y.drop_first());
    }
}

/// Variant-order insensitivity: permuting the declared variant order of a
/// variant-kind type whose variant names are distinct, with each variant's
/// content unchanged, leaves the type definition's digest as it was.
pub proof fn lemma_type_def_hash_variant_order_independent(
    reg: Seq<(u32, TypeDefinitionV)>,
    vars1: Seq<VariantV>,
    vars2: Seq<VariantV>,
    visited: Set<u32>,
)
    requires
        vars1.to_multiset() == vars2.to_multiset(),
        distinct_variant_names(vars1),
    ensures
        s_type_def_hash(reg, TypeDefKindV::Variant { variants: vars2 }, visited) == s_type_def_hash(
            reg,
            TypeDefKindV::Variant { variants: vars1 },
            visited,
        ),
{
    broadcast use group_to_multiset_ensures;

    lemma_variant_order_props(vars1);
    lemma_variant_order_props(vars2);
    let vo1 = variant_order(vars1);
    let vo2 = variant_order(vars2);
    assert(vo1.to_multiset() == vo2.to_multiset());
    // distinct names carry over to the reordered list
    let names1 = vars1.map_values(|v: VariantV| v.name);
    let names_o1 = vo1.map_values(|v: VariantV| v.name);
    lemma_map_values_multiset(vo1, vars1, |v: VariantV| v.name);
    names1.lemma_multiset_has_no_duplicates();
    names_o1.lemma_multiset_has_no_duplicates_conv();
    assert(distinct_variant_names(vo1));
    lemma_sorted_names_unique(vo1, vo2);
    assert(s_variants_bytes(reg, vo2, visited) == s_variants_bytes(reg, vo1, visited));
}

/// Cache consistency: a module digest just computed (or found) under a
/// session is memoized under the module's name, and asking the same session
/// for the same module again returns the very same digest and leaves the
/// session as it is.
pub proof fn lemma_pallet_cache_consistent(
    cache: Map<Seq<char>, Seq<u8>>,
    reg: Seq<(u32, TypeDefinitionV)>,
    m: ModuleSchemaV,
)
    requires
        s_pallet_cached(cache, reg, m).0 is Ok,
    ensures
        s_pallet_cached(cache, reg, m).1.contains_key(m.name),
        s_pallet_cached(cache, reg, m).0 == Result::<Seq<u8>, u32>::Ok(
            s_pallet_cached(cache, reg, m).1[m.name],
        ),
        s_pallet_cached(s_pallet_cached(cache, reg, m).1, reg, m) == s_pallet_cached(cache, reg, m),
{
}

} // verus!
