//! Byte-wise lexicographic ordering of digests and the name order of
//! variants: the two sorting rules that make a digest reproducible.

use vstd::prelude::*;
use vstd::relations::{antisymmetric, reflexive, sorted_by, strongly_connected, total_ordering, transitive};
use vstd::utf8::encode_utf8;
use crate::schema::VariantV;

verus! {

/// Byte-wise lexicographic "less or equal" on byte strings; a proper prefix
/// comes first.
pub open spec fn bytes_le(a: Seq<u8>, b: Seq<u8>) -> bool
    decreases a.len(),
{
    if a.len() == 0 {
        true
    } else if b.len() == 0 {
        false
    } else if a[0] < b[0] {
        true
    } else if a[0] > b[0] {
        false
    } else {
        bytes_le(a.drop_first(), b.drop_first())
    }
}

/// [`bytes_le`] as a relation value.
pub open spec fn byte_leq() -> spec_fn(Seq<u8>, Seq<u8>) -> bool {
    |a: Seq<u8>, b: Seq<u8>| bytes_le(a, b)
}

pub proof fn lemma_bytes_le_refl(a: Seq<u8>)
    ensures
        bytes_le(a, a),
    decreases a.len(),
{
    if a.len() > 0 {
        lemma_bytes_le_refl(a.drop_first());
    }
}

pub proof fn lemma_bytes_le_conn(a: Seq<u8>, b: Seq<u8>)
    ensures
        bytes_le(a, b) || bytes_le(b, a),
    decreases a.len(),
{
    if a.len() > 0 && b.len() > 0 && a[0] == b[0] {
        lemma_bytes_le_conn(a.drop_first(), b.drop_first());
    }
}

pub proof fn lemma_bytes_le_antisym(a: Seq<u8>, b: Seq<u8>)
    requires
        bytes_le(a, b),
        bytes_le(b, a),
    ensures
        a == b,
    decreases a.len(),
{
    if a.len() == 0 {
        assert(b.len() == 0);
        assert(a =~= b);
    } else {
        assert(b.len() > 0);
        assert(a[0] == b[0]);
        lemma_bytes_le_antisym(a.drop_first(), b.drop_first());
        assert(a =~= seq![a[0]] + a.drop_first());
        assert(b =~= seq![b[0]] + b.drop_first());
    }
}

pub proof fn lemma_bytes_le_trans(a: Seq<u8>, b: Seq<u8>, c: Seq<u8>)
    requires
        bytes_le(a, b),
        bytes_le(b, c),
    ensures
        bytes_le(a, c),
    decreases a.len(),
{
    if a.len() > 0 && b.len() > 0 && c.len() > 0 && a[0] == b[0] && b[0] == c[0] {
        lemma_bytes_le_trans(a.drop_first(), b.drop_first(), c.drop_first());
    }
}

/// Digest order is a total order.
pub proof fn lemma_byte_leq_total_ordering()
    ensures
        total_ordering(byte_leq()),
{
    let r = byte_leq();
    assert forall|x: Seq<u8>| #[trigger] r(x, x) by {
        lemma_bytes_le_refl(x);
    }
    assert(reflexive(r));
    assert forall|x: Seq<u8>, y: Seq<u8>| #[trigger] r(x, y) && #[trigger] r(y, x) implies x == y by {
        lemma_bytes_le_antisym(x, y);
    }
    assert(antisymmetric(r));
    assert forall|x: Seq<u8>, y: Seq<u8>, z: Seq<u8>|
        #[trigger] r(x, y) && #[trigger] r(y, z) implies r(x, z) by {
        lemma_bytes_le_trans(x, y, z);
    }
    assert(transitive(r));
    assert forall|x: Seq<u8>, y: Seq<u8>| #[trigger] r(x, y) || #[trigger] r(y, x) by {
        lemma_bytes_le_conn(x, y);
    }
    assert(strongly_connected(r));
}

/// Sorting key of one variant: its UTF-8 name, tie-broken by declared index,
/// so that equally named variants keep their declared order.
pub open spec fn pair_leq() -> spec_fn((Seq<u8>, int), (Seq<u8>, int)) -> bool {
    |x: (Seq<u8>, int), y: (Seq<u8>, int)|
        if x.0 == y.0 {
            x.1 <= y.1
        } else {
            bytes_le(x.0, y.0)
        }
}

/// Variant-name order with index tie-break is a total order.
pub proof fn lemma_pair_leq_total_ordering()
    ensures
        total_ordering(pair_leq()),
{
    let r = pair_leq();
    assert forall|x: (Seq<u8>, int)| #[trigger] r(x, x) by {
        lemma_bytes_le_refl(x.0);
    }
    assert(reflexive(r));
    assert forall|x: (Seq<u8>, int), y: (Seq<u8>, int)|
        #[trigger] r(x, y) && #[trigger] r(y, x) implies x == y by {
        if x.0 == y.0 {
            assert(x.1 == y.1);
        } else {
            lemma_bytes_le_antisym(x.0, y.0);
        }
    }
    assert(antisymmetric(r));
    assert forall|x: (Seq<u8>, int), y: (Seq<u8>, int), z: (Seq<u8>, int)|
        #[trigger] r(x, y) && #[trigger] r(y, z) implies r(x, z) by {
        if x.0 == y.0 && y.0 == z.0 {
        } else if x.0 == y.0 {
        } else if y.0 == z.0 {
        } else {
            lemma_bytes_le_trans(x.0, y.0, z.0);
            if x.0 == z.0 {
                lemma_bytes_le_conn(x.0, y.0);
                lemma_bytes_le_antisym(x.0, y.0);
            }
        }
    }
    assert(transitive(r));
    assert forall|x: (Seq<u8>, int), y: (Seq<u8>, int)| #[trigger] r(x, y) || #[trigger] r(y, x) by {
        lemma_bytes_le_conn(x.0, y.0);
        if x.0 != y.0 && bytes_le(x.0, y.0) && bytes_le(y.0, x.0) {
            lemma_bytes_le_antisym(x.0, y.0);
        }
    }
    assert(strongly_connected(r));
}

/// Digests in byte-wise ascending order.
pub open spec fn sort_digests(ds: Seq<Seq<u8>>) -> Seq<Seq<u8>> {
    ds.sort_by(byte_leq())
}

/// The sorting keys of a variant list: one `(utf-8 name, index)` pair each.
pub open spec fn name_key_pairs(vars: Seq<VariantV>) -> Seq<(Seq<u8>, int)> {
    Seq::new(vars.len(), |i: int| (encode_utf8(vars[i].name), i))
}

/// The order in which a variant list is hashed: ascending by name, equally
/// named variants in declared order.
pub open spec fn variant_order(vars: Seq<VariantV>) -> Seq<VariantV> {
    let sorted = name_key_pairs(vars).sort_by(pair_leq());
    Seq::new(vars.len(), |k: int| vars[sorted[k].1])
}

/// The views of a digest list.
pub open spec fn dv(s: Seq<[u8; 32]>) -> Seq<Seq<u8>> {
    s.map_values(|d: [u8; 32]| d@)
}

/// The views of an exec key-pair list.
pub open spec fn pv(s: Seq<(Vec<u8>, usize)>) -> Seq<(Seq<u8>, int)> {
    s.map_values(|p: (Vec<u8>, usize)| (p.0@, p.1 as int))
}

/// Byte-wise lexicographic comparison of two byte slices.
pub fn bytes_le_exec(a: &[u8], b: &[u8]) -> (r: bool)
    ensures
        r == bytes_le(a@, b@),
{
    let na = a.len();
    let nb = b.len();
    let mut i: usize = 0;
    proof {
        assert(a@.skip(0) =~= a@);
        assert(b@.skip(0) =~= b@);
    }
    while i < na && i < nb
        invariant
            na == a@.len(),
            nb == b@.len(),
            i <= na,
            i <= nb,
            bytes_le(a@, b@) == bytes_le(a@.skip(i as int), b@.skip(i as int)),
            bytes_le(b@, a@) == bytes_le(b@.skip(i as int), a@.skip(i as int)),
        decreases na - i,
    {
        proof {
            assert(a@.skip(i as int)[0] == a@[i as int]);
            assert(b@.skip(i as int)[0] == b@[i as int]);
            assert(a@.skip(i as int).drop_first() =~= a@.skip(i as int + 1));
            assert(b@.skip(i as int).drop_first() =~= b@.skip(i as int + 1));
        }
        let x = *vstd::slice::slice_index_get(a, i);
        let y = *vstd::slice::slice_index_get(b, i);
        if x < y {
            return true;
        }
        if x > y {
            return false;
        }
        i = i + 1;
    }
    proof {
        if i >= na {
            assert(a@.skip(i as int).len() == 0);
        } else {
            assert(b@.skip(i as int).len() == 0);
            assert(a@.skip(i as int).len() > 0);
        }
    }
    i >= na
}

/// Byte-wise comparison of two digests.
pub fn digest_le(a: &[u8; 32], b: &[u8; 32]) -> (r: bool)
    ensures
        r == bytes_le(a@, b@),
{
    broadcast use vstd::array::group_array_axioms;

    bytes_le_exec(a.as_slice(), b.as_slice())
}

/// Sorts a digest list byte-wise ascending.
pub fn sort_digest_vec(v: Vec<[u8; 32]>) -> (r: Vec<[u8; 32]>)
    ensures
        dv(r@) == sort_digests(dv(v@)),
{
    broadcast use vstd::seq_lib::group_to_multiset_ensures;

    let n = v.len();
    let mut out: Vec<[u8; 32]> = Vec::new();
    let mut i: usize = 0;
    proof {
        lemma_byte_leq_total_ordering();
        assert(dv(out@) =~= Seq::<Seq<u8>>::empty());
        assert(dv(v@).take(0) =~= Seq::<Seq<u8>>::empty());
        assert(dv(out@).to_multiset() =~= dv(v@).take(0).to_multiset());
    }
    while i < n
        invariant
            n == v.len(),
            i <= n,
            sorted_by(dv(out@), byte_leq()),
            dv(out@).to_multiset() == dv(v@).take(i as int).to_multiset(),
            out@.len() == i,
        decreases n - i,
    {
        let x = v[i];
        let m = out.len();
        let mut j: usize = 0;
        while j < m && digest_le(&out[j], &x)
            invariant
                m == out.len(),
                j <= m,
                forall|k: int| 0 <= k < j ==> bytes_le(#[trigger] dv(out@)[k], x@),
            decreases m - j,
        {
            proof {
                assert(dv(out@)[j as int] == out@[j as int]@);
            }
            j = j + 1;
        }
        let ghost old_out = out@;
        out.insert(j, x);
        proof {
            assert(out@ =~= old_out.insert(j as int, x));
            assert(dv(old_out.insert(j as int, x)) =~= dv(old_out).insert(j as int, x@));
            let s0 = dv(old_out);
            let s1 = dv(out@);
            assert(s1 =~= s0.insert(j as int, x@));
            // sortedness of the extended sequence
            assert forall|p: int, q: int| 0 <= p < q < s1.len() implies #[trigger] byte_leq()(
                s1[p],
                s1[q],
            ) by {
                if q < j {
                    assert(s1[p] == s0[p] && s1[q] == s0[q]);
                } else if p > j {
                    assert(s1[p] == s0[p - 1] && s1[q] == s0[q - 1]);
                } else if p < j && q == j {
                    assert(s1[p] == s0[p] && s1[q] == x@);
                    assert(bytes_le(s0[p], x@));
                } else if p == j && q > j {
                    assert(s1[p] == x@ && s1[q] == s0[q - 1]);
                    if j < m {
                        assert(!bytes_le(s0[j as int], x@));
                        lemma_bytes_le_conn(s0[j as int], x@);
                        assert(bytes_le(x@, s0[j as int]));
                        if q - 1 > j {
                            assert(byte_leq()(s0[j as int], s0[q - 1]));
                            lemma_bytes_le_trans(x@, s0[j as int], s0[q - 1]);
                        }
                    }
                } else if p < j && q > j {
                    assert(s1[p] == s0[p] && s1[q] == s0[q - 1]);
                    assert(byte_leq()(s0[p], s0[q - 1]));
                }
            }
            assert(sorted_by(s1, byte_leq()));
            // multiset bookkeeping
            vstd::seq_lib::to_multiset_insert(s0, j as int, x@);
            assert(dv(v@).take(i as int + 1) =~= dv(v@).take(i as int).push(x@));
            vstd::seq_lib::to_multiset_build(dv(v@).take(i as int), x@);
            assert(s1.to_multiset() =~= dv(v@).take(i as int + 1).to_multiset());
        }
        i = i + 1;
    }
    proof {
        assert(dv(v@).take(n as int) =~= dv(v@));
        dv(v@).lemma_sort_by_ensures(byte_leq());
        vstd::seq_lib::lemma_sorted_unique(dv(out@), dv(v@).sort_by(byte_leq()), byte_leq());
        assert(dv(out@) == sort_digests(dv(v@)));
    }
    out
}

/// Byte-wise equality of two byte slices.
pub fn bytes_eq_exec(a: &[u8], b: &[u8]) -> (r: bool)
    ensures
        r == (a@ == b@),
{
    let na = a.len();
    if na != b.len() {
        return false;
    }
    let mut i: usize = 0;
    while i < na
        invariant
            na == a@.len(),
            na == b@.len(),
            i <= na,
            forall|k: int| 0 <= k < i ==> a@[k] == b@[k],
        decreases na - i,
    {
        let x = *vstd::slice::slice_index_get(a, i);
        let y = *vstd::slice::slice_index_get(b, i);
        if x != y {
            return false;
        }
        i = i + 1;
    }
    proof {
        assert(a@ =~= b@);
    }
    true
}

/// Equality of two strings, decided on their UTF-8 bytes.
pub fn str_eq(a: &str, b: &str) -> (r: bool)
    ensures
        r == (a@ == b@),
{
    let r = bytes_eq_exec(a.as_bytes(), b.as_bytes());
    proof {
        if encode_utf8(a@) == encode_utf8(b@) {
            vstd::utf8::encode_utf8_decode_utf8(a@);
            vstd::utf8::encode_utf8_decode_utf8(b@);
        }
    }
    r
}

/// Name order on two exec key pairs.
fn pair_le_exec(a: &(Vec<u8>, usize), b: &(Vec<u8>, usize)) -> (r: bool)
    ensures
        r == pair_leq()((a.0@, a.1 as int), (b.0@, b.1 as int)),
{
    if bytes_eq_exec(a.0.as_slice(), b.0.as_slice()) {
        a.1 <= b.1
    } else {
        bytes_le_exec(a.0.as_slice(), b.0.as_slice())
    }
}

/// The `(utf-8 name, index)` keys of a variant list, sorted into the order in
/// which the variants are hashed.
pub fn sorted_variant_keys(vars: &Vec<crate::schema::VariantDef>) -> (r: Vec<(Vec<u8>, usize)>)
    ensures
        ({
            let vv = vars@.map_values(|v: crate::schema::VariantDef| v@);
            &&& pv(r@) == name_key_pairs(vv).sort_by(pair_leq())
            &&& r@.len() == vars@.len()
            &&& forall|k: int|
                0 <= k < r@.len() ==> 0 <= (#[trigger] r@[k]).1 < vars@.len()
                    && vars@[r@[k].1 as int]@ == variant_order(vv)[k]
        }),
{
    broadcast use vstd::seq_lib::group_to_multiset_ensures;

    let ghost vv = vars@.map_values(|v: crate::schema::VariantDef| v@);
    let ghost pairs = name_key_pairs(vv);
    let n = vars.len();
    let mut out: Vec<(Vec<u8>, usize)> = Vec::new();
    let mut i: usize = 0;
    proof {
        lemma_pair_leq_total_ordering();
        assert(pv(out@) =~= Seq::<(Seq<u8>, int)>::empty());
        assert(pairs.take(0) =~= Seq::<(Seq<u8>, int)>::empty());
        assert(pv(out@).to_multiset() =~= pairs.take(0).to_multiset());
    }
    while i < n
        invariant
            n == vars.len(),
            i <= n,
            vv == vars@.map_values(|v: crate::schema::VariantDef| v@),
            pairs == name_key_pairs(vv),
            sorted_by(pv(out@), pair_leq()),
            pv(out@).to_multiset() == pairs.take(i as int).to_multiset(),
            out@.len() == i,
        decreases n - i,
    {
        let nb = vstd::slice::slice_to_vec(vars[i].name.as_str().as_bytes());
        let x = (nb, i);
        proof {
            assert(vars@[i as int]@ == vv[i as int]);
            assert(pairs[i as int] == (encode_utf8(vv[i as int].name), i as int));
            assert((x.0@, x.1 as int) == pairs[i as int]);
        }
        let m = out.len();
        let mut j: usize = 0;
        while j < m && pair_le_exec(&out[j], &x)
            invariant
                m == out.len(),
                j <= m,
                forall|k: int| 0 <= k < j ==> pair_leq()(#[trigger] pv(out@)[k], (x.0@, x.1 as int)),
            decreases m - j,
        {
            proof {
                assert(pv(out@)[j as int] == (out@[j as int].0@, out@[j as int].1 as int));
            }
            j = j + 1;
        }
        let ghost old_out = out@;
        let ghost xv = (x.0@, x.1 as int);
        out.insert(j, x);
        proof {
            lemma_pair_leq_total_ordering();
            assert(out@ =~= old_out.insert(j as int, x));
            let s0 = pv(old_out);
            let s1 = pv(out@);
            assert(s1 =~= s0.insert(j as int, xv));
            if j < m {
                assert(pv(old_out)[j as int] == (old_out[j as int].0@, old_out[j as int].1 as int));
                assert(!pair_leq()(s0[j as int], xv));
            }
            assert forall|p: int, q: int| 0 <= p < q < s1.len() implies #[trigger] pair_leq()(
                s1[p],
                s1[q],
            ) by {
                if q < j {
                    assert(s1[p] == s0[p] && s1[q] == s0[q]);
                } else if p > j {
                    assert(s1[p] == s0[p - 1] && s1[q] == s0[q - 1]);
                } else if p < j && q == j {
                    assert(s1[p] == s0[p] && s1[q] == xv);
                } else if p == j && q > j {
                    assert(s1[p] == xv && s1[q] == s0[q - 1]);
                    assert(pair_leq()(xv, s0[j as int]));
                    if q - 1 > j {
                        assert(pair_leq()(s0[j as int], s0[q - 1]));
                    }
                } else if p < j && q > j {
                    assert(s1[p] == s0[p] && s1[q] == s0[q - 1]);
                    assert(pair_leq()(s0[p], s0[q - 1]));
                }
            }
            assert(sorted_by(s1, pair_leq()));
            vstd::seq_lib::to_multiset_insert(s0, j as int, xv);
            assert(pairs.take(i as int + 1) =~= pairs.take(i as int).push(xv));
            vstd::seq_lib::to_multiset_build(pairs.take(i as int), xv);
            assert(s1.to_multiset() =~= pairs.take(i as int + 1).to_multiset());
        }
        i = i + 1;
    }
    proof {
        assert(pairs.take(n as int) =~= pairs);
        pairs.lemma_sort_by_ensures(pair_leq());
        let sorted = pairs.sort_by(pair_leq());
        vstd::seq_lib::lemma_sorted_unique(pv(out@), sorted, pair_leq());
        assert(pv(out@) == sorted);
        assert forall|k: int| 0 <= k < out@.len() implies 0 <= (#[trigger] out@[k]).1 < vars@.len()
            && vars@[out@[k].1 as int]@ == variant_order(vv)[k] by {
            assert(pv(out@)[k] == (out@[k].0@, out@[k].1 as int));
            assert(sorted.to_multiset() =~= pairs.to_multiset());
            assert(sorted.contains(sorted[k]));
            assert(pairs.contains(sorted[k]));
            let m0 = choose|m0: int| 0 <= m0 < pairs.len() && pairs[m0] == sorted[k];
            assert(pairs[m0] == (encode_utf8(vv[m0].name), m0));
            assert(sorted[k].1 == m0);
            assert(variant_order(vv)[k] == vv[sorted[k].1]);
            assert(vars@[m0]@ == vv[m0]);
        }
    }
    out
}

} // verus!
