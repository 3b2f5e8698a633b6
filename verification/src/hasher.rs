//! The structural hasher: the recursive, cycle-guarded digest over fields,
//! variants, type definitions, whole types and the extrinsic envelope,
//! together with its full mathematical model.

use vstd::prelude::*;
use crate::schema::{
    s_resolve, unvisited_count, lemma_resolve_in_ids, lemma_unvisited_decreases, ExtrinsicSchema,
    ExtrinsicV, Field, FieldV, HashError, SignedExtensionV, TypeDefKind, TypeDefKindV,
    TypeDefinitionV, TypeRegistry, VariantDef, VariantV,
};
use crate::encode::{
    enc_opt_str, enc_segments, enc_str, enc_u32, encode_opt_str_to, encode_segments_to,
    encode_str_to, encode_u32_to, prim_byte, primitive_tag, push_digest,
};
use crate::order::variant_order;

verus! {

/// Domain separation tags: one byte per entity category, so that two
/// categories never hash the same byte string.
pub const FIELD_TAG: u8 = 0;

pub const VARIANT_TAG: u8 = 1;

pub const TYPEDEF_TAG: u8 = 2;

pub const TYPE_TAG: u8 = 3;

pub const PALLET_TAG: u8 = 4;

pub const EXTRINSIC_TAG: u8 = 5;

/// The 32-byte SHA-256 digest of a byte string, named but not written out:
/// the hash primitive every digest of this library is reduced through.
pub uninterp spec fn sha256_of(input: Seq<u8>) -> Seq<u8>;

/// Relies on `sp_core_hashing::sha2_256` (the function behind
/// `sp_core::hashing::sha2_256`): the SHA-256 digest of the input, a function
/// of the input bytes alone.
#[verifier::external_body]
pub(crate) fn hash(bytes: &Vec<u8>) -> (r: [u8; 32])
    ensures
        r@ == sha256_of(bytes@),
{
    sp_core_hashing::sha2_256(bytes.as_slice())
}

/// Concatenation of two intermediate byte strings; the first error wins.
pub open spec fn rcat(a: Result<Seq<u8>, u32>, b: Result<Seq<u8>, u32>) -> Result<Seq<u8>, u32> {
    match a {
        Result::Err(e) => Result::Err(e),
        Result::Ok(x) => match b {
            Result::Err(e) => Result::Err(e),
            Result::Ok(y) => Result::Ok(x + y),
        },
    }
}

/// Hashing of a prefix and an intermediate byte string; errors pass through.
pub open spec fn rsha(pre: Seq<u8>, r: Result<Seq<u8>, u32>) -> Result<Seq<u8>, u32> {
    match r {
        Result::Err(e) => Result::Err(e),
        Result::Ok(x) => Result::Ok(sha256_of(pre + x)),
    }
}

/// How an executable digest result corresponds to its model: equal digest
/// bytes on success, `UnknownTypeId` carrying the model's id on failure.
pub open spec fn digest_result_matches(r: Result<[u8; 32], HashError>, s: Result<Seq<u8>, u32>) -> bool {
    match r {
        Result::Ok(d) => s == Result::<Seq<u8>, u32>::Ok(d@),
        Result::Err(HashError::UnknownTypeId(i)) => s == Result::<Seq<u8>, u32>::Err(i),
        Result::Err(HashError::UnsupportedSchemaVersion) => false,
    }
}

/// Digest of a type id: the type tag and the type's path, and, when the id is
/// not yet on the current path, the digest of its definition.  An id already
/// on the path is cut short at tag and path: the guard that ends every cycle.
pub open spec fn s_type_hash(reg: Seq<(u32, TypeDefinitionV)>, id: u32, visited: Set<u32>) -> Result<
    Seq<u8>,
    u32,
>
    decreases unvisited_count(reg, visited), 0int, 0int,
    via s_type_hash_dec
{
    match s_resolve(reg, id) {
        Option::None => Result::Err(id),
        Option::Some(ty) => {
            let base = seq![TYPE_TAG] + enc_segments(ty.path);
            if visited.contains(id) {
                Result::Ok(sha256_of(base))
            } else {
                rsha(base, s_type_def_hash(reg, ty.def, visited.insert(id)))
            }
        },
    }
}

#[via_fn]
proof fn s_type_hash_dec(reg: Seq<(u32, TypeDefinitionV)>, id: u32, visited: Set<u32>) {
    if s_resolve(reg, id) is Some && !visited.contains(id) {
        lemma_resolve_in_ids(reg, id);
        lemma_unvisited_decreases(reg, visited, id);
    }
}

/// Digest of a field: tag, encoded name and declared type name, and the
/// digest of its type.
pub open spec fn s_field_hash(reg: Seq<(u32, TypeDefinitionV)>, f: FieldV, visited: Set<u32>) -> Result<
    Seq<u8>,
    u32,
>
    decreases unvisited_count(reg, visited), 2int, 0int,
{
    rsha(
        seq![FIELD_TAG] + enc_opt_str(f.name) + enc_opt_str(f.ty_name),
        s_type_hash(reg, f.ty, visited),
    )
}

/// The concatenated digests of a field list, in order.
pub open spec fn s_fields_bytes(
    reg: Seq<(u32, TypeDefinitionV)>,
    fields: Seq<FieldV>,
    visited: Set<u32>,
) -> Result<Seq<u8>, u32>
    decreases unvisited_count(reg, visited), 3int, fields.len(),
{
    if fields.len() == 0 {
        Result::Ok(Seq::empty())
    } else {
        rcat(s_field_hash(reg, fields[0], visited), s_fields_bytes(reg, fields.drop_first(), visited))
    }
}

/// Digest of a variant: tag, encoded name, and its fields' digests in order.
pub open spec fn s_variant_hash(
    reg: Seq<(u32, TypeDefinitionV)>,
    var: VariantV,
    visited: Set<u32>,
) -> Result<Seq<u8>, u32>
    decreases unvisited_count(reg, visited), 4int, 0int,
{
    rsha(seq![VARIANT_TAG] + enc_str(var.name), s_fields_bytes(reg, var.fields, visited))
}

/// The concatenated digests of a variant list, in the order given.
pub open spec fn s_variants_bytes(
    reg: Seq<(u32, TypeDefinitionV)>,
    vars: Seq<VariantV>,
    visited: Set<u32>,
) -> Result<Seq<u8>, u32>
    decreases unvisited_count(reg, visited), 5int, vars.len(),
{
    if vars.len() == 0 {
        Result::Ok(Seq::empty())
    } else {
        rcat(s_variant_hash(reg, vars[0], visited), s_variants_bytes(reg, vars.drop_first(), visited))
    }
}

/// The concatenated digests of a type-id list, in order.
pub open spec fn s_ids_bytes(
    reg: Seq<(u32, TypeDefinitionV)>,
    ids: Seq<u32>,
    visited: Set<u32>,
) -> Result<Seq<u8>, u32>
    decreases unvisited_count(reg, visited), 1int, ids.len(),
{
    if ids.len() == 0 {
        Result::Ok(Seq::empty())
    } else {
        rcat(s_type_hash(reg, ids[0], visited), s_ids_bytes(reg, ids.drop_first(), visited))
    }
}

/// Digest of a type definition.  Fields count positionally; variants are
/// hashed in name order; an array folds in its length; a primitive its tag.
pub open spec fn s_type_def_hash(
    reg: Seq<(u32, TypeDefinitionV)>,
    def: TypeDefKindV,
    visited: Set<u32>,
) -> Result<Seq<u8>, u32>
    decreases unvisited_count(reg, visited), 6int, 0int,
{
    match def {
        TypeDefKindV::Composite { fields } => rsha(
            seq![TYPEDEF_TAG],
            s_fields_bytes(reg, fields, visited),
        ),
        TypeDefKindV::Variant { variants } => rsha(
            seq![TYPEDEF_TAG],
            s_variants_bytes(reg, variant_order(variants), visited),
        ),
        TypeDefKindV::Sequence { element } => rsha(
            seq![TYPEDEF_TAG],
            s_type_hash(reg, element, visited),
        ),
        TypeDefKindV::Array { len, element } => rsha(
            seq![TYPEDEF_TAG] + enc_u32(len),
            s_type_hash(reg, element, visited),
        ),
        TypeDefKindV::Tuple { elements } => rsha(seq![TYPEDEF_TAG], s_ids_bytes(reg, elements, visited)),
        TypeDefKindV::Primitive { prim } => Result::Ok(sha256_of(seq![TYPEDEF_TAG, prim_byte(prim)])),
        TypeDefKindV::Compact { element } => rsha(seq![TYPEDEF_TAG], s_type_hash(reg, element, visited)),
        TypeDefKindV::BitSequence { order, store } => rsha(
            seq![TYPEDEF_TAG],
            rcat(s_type_hash(reg, order, visited), s_type_hash(reg, store, visited)),
        ),
    }
}

/// The bytes one signed extension contributes: encoded identifier, then the
/// digests of its data type and its additional-data type, each from a fresh
/// path.
pub open spec fn s_ext_bytes(reg: Seq<(u32, TypeDefinitionV)>, e: SignedExtensionV) -> Result<
    Seq<u8>,
    u32,
> {
    rcat(
        Result::Ok(enc_str(e.identifier)),
        rcat(
            s_type_hash(reg, e.ty, Set::empty()),
            s_type_hash(reg, e.additional_signed, Set::empty()),
        ),
    )
}

pub open spec fn s_exts_bytes(reg: Seq<(u32, TypeDefinitionV)>, exts: Seq<SignedExtensionV>) -> Result<
    Seq<u8>,
    u32,
>
    decreases exts.len(),
{
    if exts.len() == 0 {
        Result::Ok(Seq::empty())
    } else {
        rcat(s_ext_bytes(reg, exts[0]), s_exts_bytes(reg, exts.drop_first()))
    }
}

/// Digest of the extrinsic envelope: tag, envelope type digest, the literal
/// version byte, then each signed extension in declared order.
pub open spec fn s_extrinsic_hash(reg: Seq<(u32, TypeDefinitionV)>, ex: ExtrinsicV) -> Result<
    Seq<u8>,
    u32,
> {
    rsha(
        seq![EXTRINSIC_TAG],
        rcat(
            s_type_hash(reg, ex.ty, Set::empty()),
            rcat(Result::Ok(seq![ex.version]), s_exts_bytes(reg, ex.signed_extensions)),
        ),
    )
}

/// `rcat` pastes byte strings associatively.
pub proof fn lemma_rcat_assoc(a: Result<Seq<u8>, u32>, b: Result<Seq<u8>, u32>, c: Result<Seq<u8>, u32>)
    ensures
        rcat(rcat(a, b), c) == rcat(a, rcat(b, c)),
{
    match (a, b, c) {
        (Result::Ok(x), Result::Ok(y), Result::Ok(z)) => {
            assert((x + y) + z =~= x + (y + z));
        },
        _ => {},
    }
}

/// An empty tail contributes nothing to `rcat`.
pub proof fn lemma_rcat_empty(a: Result<Seq<u8>, u32>)
    ensures
        rcat(a, Result::Ok(Seq::empty())) == a,
{
    match a {
        Result::Ok(x) => {
            assert(x + Seq::<u8>::empty() =~= x);
        },
        _ => {},
    }
}

/// Tests whether a type id is already on the current path.
fn vec_contains(v: &Vec<u32>, x: u32) -> (r: bool)
    ensures
        r == v@.contains(x),
{
    let n = v.len();
    let mut i: usize = 0;
    while i < n
        invariant
            n == v@.len(),
            i <= n,
            forall|k: int| 0 <= k < i ==> v@[k] != x,
        decreases n - i,
    {
        if v[i] == x {
            return true;
        }
        i = i + 1;
    }
    false
}

/// A copy of the current path with one more id on it.
fn copy_push(v: &Vec<u32>, x: u32) -> (r: Vec<u32>)
    ensures
        r@ == v@.push(x),
{
    let n = v.len();
    let mut out: Vec<u32> = Vec::new();
    let mut i: usize = 0;
    while i < n
        invariant
            n == v@.len(),
            i <= n,
            out@ == v@.take(i as int),
        decreases n - i,
    {
        out.push(v[i]);
        proof {
            assert(out@ =~= v@.take(i as int + 1));
        }
        i = i + 1;
    }
    out.push(x);
    proof {
        assert(v@.take(n as int) =~= v@);
    }
    out
}

/// Digest of a `Field`, with the ids of the current traversal path in
/// `visited`.
pub fn get_field_hash(registry: &TypeRegistry, field: &Field, visited: &Vec<u32>) -> (r: Result<
    [u8; 32],
    HashError,
>)
    ensures
        digest_result_matches(r, s_field_hash(registry@, field@, visited@.to_set())),
    decreases unvisited_count(registry@, visited@.to_set()), 2int, 0int,
{
    let mut bytes: Vec<u8> = Vec::new();
    bytes.push(FIELD_TAG);
    encode_opt_str_to(&field.name, &mut bytes);
    encode_opt_str_to(&field.ty_name, &mut bytes);
    proof {
        assert(bytes@ =~= seq![FIELD_TAG] + enc_opt_str(field@.name) + enc_opt_str(field@.ty_name));
    }
    match get_type_hash(registry, field.ty, visited) {
        Result::Ok(d) => {
            push_digest(&d, &mut bytes);
            Result::Ok(hash(&bytes))
        },
        Result::Err(e) => Result::Err(e),
    }
}

/// Digest of a `VariantDef`, with the current traversal path in `visited`.
pub fn get_variant_hash(registry: &TypeRegistry, var: &VariantDef, visited: &Vec<u32>) -> (r: Result<
    [u8; 32],
    HashError,
>)
    ensures
        digest_result_matches(r, s_variant_hash(registry@, var@, visited@.to_set())),
    decreases unvisited_count(registry@, visited@.to_set()), 4int, 0int,
{
    let ghost reg = registry@;
    let ghost vs = visited@.to_set();
    let ghost fv = var@.fields;
    let mut bytes: Vec<u8> = Vec::new();
    bytes.push(VARIANT_TAG);
    encode_str_to(var.name.as_str(), &mut bytes);
    let ghost pre = seq![VARIANT_TAG] + enc_str(var@.name);
    proof {
        assert(bytes@ =~= pre);
        assert(fv.skip(0) =~= fv);
    }
    let n = var.fields.len();
    let mut i: usize = 0;
    while i < n
        invariant
            n == var.fields.len(),
            i <= n,
            reg == registry@,
            vs == visited@.to_set(),
            fv == var@.fields,
            pre == seq![VARIANT_TAG] + enc_str(var@.name),
            bytes@.len() >= pre.len(),
            bytes@.take(pre.len() as int) == pre,
            rcat(
                Result::Ok(bytes@.skip(pre.len() as int)),
                s_fields_bytes(reg, fv.skip(i as int), vs),
            ) == s_fields_bytes(reg, fv, vs),
        decreases n - i,
    {
        proof {
            assert(fv.skip(i as int).len() > 0);
            assert(fv.skip(i as int)[0] == fv[i as int]);
            assert(fv.skip(i as int).drop_first() =~= fv.skip(i as int + 1));
            assert(var.fields@[i as int]@ == fv[i as int]);
        }
        let ghost acc = bytes@.skip(pre.len() as int);
        match get_field_hash(registry, &var.fields[i], visited) {
            Result::Ok(d) => {
                push_digest(&d, &mut bytes);
                proof {
                    assert(bytes@.take(pre.len() as int) =~= pre);
                    assert(bytes@.skip(pre.len() as int) =~= acc + d@);
                    lemma_rcat_assoc(
                        Result::Ok(acc),
                        Result::Ok(d@),
                        s_fields_bytes(reg, fv.skip(i as int + 1), vs),
                    );
                }
            },
            Result::Err(e) => {
                return Result::Err(e);
            },
        }
        i = i + 1;
    }
    proof {
        assert(fv.skip(n as int) =~= Seq::<FieldV>::empty());
        lemma_rcat_empty(Result::Ok(bytes@.skip(pre.len() as int)));
        assert(bytes@ =~= pre + bytes@.skip(pre.len() as int));
    }
    Result::Ok(hash(&bytes))
}

/// Digest of a `TypeDefKind`, with the current traversal path in `visited`.
#[verifier::loop_isolation(false)]
pub fn get_type_def_hash(registry: &TypeRegistry, ty_def: &TypeDefKind, visited: &Vec<u32>) -> (r: Result<
    [u8; 32],
    HashError,
>)
    ensures
        digest_result_matches(r, s_type_def_hash(registry@, ty_def@, visited@.to_set())),
    decreases unvisited_count(registry@, visited@.to_set()), 6int, 0int,
{
    let ghost reg = registry@;
    let ghost vs = visited@.to_set();
    let mut bytes: Vec<u8> = Vec::new();
    bytes.push(TYPEDEF_TAG);
    match ty_def {
        TypeDefKind::Composite { fields } => {
            let ghost fv = ty_def@->Composite_fields;
            proof {
                assert(bytes@ =~= seq![TYPEDEF_TAG]);
                assert(fv.skip(0) =~= fv);
            }
            let n = fields.len();
            let mut i: usize = 0;
            while i < n
                invariant
                    n == fields.len(),
                    i <= n,
                    reg == registry@,
                    vs == visited@.to_set(),
                    fv == fields@.map_values(|f: Field| f@),
                    bytes@.len() >= 1,
                    bytes@[0] == TYPEDEF_TAG,
                    rcat(Result::Ok(bytes@.skip(1)), s_fields_bytes(reg, fv.skip(i as int), vs))
                        == s_fields_bytes(reg, fv, vs),
                decreases n - i,
            {
                proof {
                    assert(fv.skip(i as int).len() > 0);
                    assert(fv.skip(i as int)[0] == fv[i as int]);
                    assert(fv.skip(i as int).drop_first() =~= fv.skip(i as int + 1));
                    assert(fields@[i as int]@ == fv[i as int]);
                }
                let ghost acc = bytes@.skip(1);
                match get_field_hash(registry, &fields[i], visited) {
                    Result::Ok(d) => {
                        push_digest(&d, &mut bytes);
                        proof {
                            assert(bytes@[0] == TYPEDEF_TAG);
                            assert(bytes@.skip(1) =~= acc + d@);
                            lemma_rcat_assoc(
                                Result::Ok(acc),
                                Result::Ok(d@),
                                s_fields_bytes(reg, fv.skip(i as int + 1), vs),
                            );
                        }
                    },
                    Result::Err(e) => {
                        return Result::Err(e);
                    },
                }
                i = i + 1;
            }
            proof {
                assert(fv.skip(n as int) =~= Seq::<FieldV>::empty());
                lemma_rcat_empty(Result::Ok(bytes@.skip(1)));
                assert(bytes@ =~= seq![TYPEDEF_TAG] + bytes@.skip(1));
            }
            Result::Ok(hash(&bytes))
        },
        TypeDefKind::Variant { variants } => {
            let ghost vv = variants@.map_values(|v: VariantDef| v@);
            let ghost vo = variant_order(vv);
            let keys = crate::order::sorted_variant_keys(variants);
            proof {
                assert(bytes@ =~= seq![TYPEDEF_TAG]);
                assert(vo.skip(0) =~= vo);
                assert(vo.len() == vv.len());
            }
            let n = keys.len();
            let mut k: usize = 0;
            while k < n
                invariant
                    n == keys.len(),
                    k <= n,
                    reg == registry@,
                    vs == visited@.to_set(),
                    vv == variants@.map_values(|v: VariantDef| v@),
                    vo == variant_order(vv),
                    vo.len() == vv.len(),
                    n == vo.len(),
                    forall|q: int|
                        0 <= q < keys@.len() ==> 0 <= (#[trigger] keys@[q]).1 < variants@.len()
                            && variants@[keys@[q].1 as int]@ == vo[q],
                    bytes@.len() >= 1,
                    bytes@[0] == TYPEDEF_TAG,
                    rcat(Result::Ok(bytes@.skip(1)), s_variants_bytes(reg, vo.skip(k as int), vs))
                        == s_variants_bytes(reg, vo, vs),
                decreases n - k,
            {
                proof {
                    assert(vo.skip(k as int).len() > 0);
                    assert(vo.skip(k as int)[0] == vo[k as int]);
                    assert(vo.skip(k as int).drop_first() =~= vo.skip(k as int + 1));
                }
                let idx = keys[k].1;
                let ghost acc = bytes@.skip(1);
                match get_variant_hash(registry, &variants[idx], visited) {
                    Result::Ok(d) => {
                        push_digest(&d, &mut bytes);
                        proof {
                            assert(bytes@[0] == TYPEDEF_TAG);
                            assert(bytes@.skip(1) =~= acc + d@);
                            lemma_rcat_assoc(
                                Result::Ok(acc),
                                Result::Ok(d@),
                                s_variants_bytes(reg, vo.skip(k as int + 1), vs),
                            );
                        }
                    },
                    Result::Err(e) => {
                        return Result::Err(e);
                    },
                }
                k = k + 1;
            }
            proof {
                assert(vo.skip(n as int) =~= Seq::<VariantV>::empty());
                lemma_rcat_empty(Result::Ok(bytes@.skip(1)));
                assert(bytes@ =~= seq![TYPEDEF_TAG] + bytes@.skip(1));
            }
            Result::Ok(hash(&bytes))
        },
        TypeDefKind::Sequence { element } => {
            match get_type_hash(registry, *element, visited) {
                Result::Ok(d) => {
                    push_digest(&d, &mut bytes);
                    proof {
                        assert(bytes@ =~= seq![TYPEDEF_TAG] + d@);
                    }
                    Result::Ok(hash(&bytes))
                },
                Result::Err(e) => Result::Err(e),
            }
        },
        TypeDefKind::Array { len, element } => {
            encode_u32_to(*len, &mut bytes);
            proof {
                assert(bytes@ =~= seq![TYPEDEF_TAG] + enc_u32(*len));
            }
            match get_type_hash(registry, *element, visited) {
                Result::Ok(d) => {
                    push_digest(&d, &mut bytes);
                    proof {
                        assert(bytes@ =~= (seq![TYPEDEF_TAG] + enc_u32(*len)) + d@);
                    }
                    Result::Ok(hash(&bytes))
                },
                Result::Err(e) => Result::Err(e),
            }
        },
        TypeDefKind::Tuple { elements } => {
            let ghost ev = elements@;
            proof {
                assert(bytes@ =~= seq![TYPEDEF_TAG]);
                assert(ev.skip(0) =~= ev);
            }
            let n = elements.len();
            let mut i: usize = 0;
            while i < n
                invariant
                    n == elements.len(),
                    i <= n,
                    reg == registry@,
                    vs == visited@.to_set(),
                    ev == elements@,
                    bytes@.len() >= 1,
                    bytes@[0] == TYPEDEF_TAG,
                    rcat(Result::Ok(bytes@.skip(1)), s_ids_bytes(reg, ev.skip(i as int), vs))
                        == s_ids_bytes(reg, ev, vs),
                decreases n - i,
            {
                proof {
                    assert(ev.skip(i as int).len() > 0);
                    assert(ev.skip(i as int)[0] == ev[i as int]);
                    assert(ev.skip(i as int).drop_first() =~= ev.skip(i as int + 1));
                }
                let ghost acc = bytes@.skip(1);
                match get_type_hash(registry, elements[i], visited) {
                    Result::Ok(d) => {
                        push_digest(&d, &mut bytes);
                        proof {
                            assert(bytes@[0] == TYPEDEF_TAG);
                            assert(bytes@.skip(1) =~= acc + d@);
                            lemma_rcat_assoc(
                                Result::Ok(acc),
                                Result::Ok(d@),
                                s_ids_bytes(reg, ev.skip(i as int + 1), vs),
                            );
                        }
                    },
                    Result::Err(e) => {
                        return Result::Err(e);
                    },
                }
                i = i + 1;
            }
            proof {
                assert(ev.skip(n as int) =~= Seq::<u32>::empty());
                lemma_rcat_empty(Result::Ok(bytes@.skip(1)));
                assert(bytes@ =~= seq![TYPEDEF_TAG] + bytes@.skip(1));
            }
            Result::Ok(hash(&bytes))
        },
        TypeDefKind::Primitive { prim } => {
            let t = primitive_tag(*prim);
            bytes.push(t);
            proof {
                assert(bytes@ =~= seq![TYPEDEF_TAG, prim_byte(*prim)]);
            }
            Result::Ok(hash(&bytes))
        },
        TypeDefKind::Compact { element } => {
            match get_type_hash(registry, *element, visited) {
                Result::Ok(d) => {
                    push_digest(&d, &mut bytes);
                    proof {
                        assert(bytes@ =~= seq![TYPEDEF_TAG] + d@);
                    }
                    Result::Ok(hash(&bytes))
                },
                Result::Err(e) => Result::Err(e),
            }
        },
        TypeDefKind::BitSequence { order, store } => {
            match get_type_hash(registry, *order, visited) {
                Result::Ok(d1) => {
                    push_digest(&d1, &mut bytes);
                    match get_type_hash(registry, *store, visited) {
                        Result::Ok(d2) => {
                            push_digest(&d2, &mut bytes);
                            proof {
                                assert(bytes@ =~= seq![TYPEDEF_TAG] + (d1@ + d2@));
                            }
                            Result::Ok(hash(&bytes))
                        },
                        Result::Err(e) => Result::Err(e),
                    }
                },
                Result::Err(e) => Result::Err(e),
            }
        },
    }
}

/// Digest of the type with the given id, with the current traversal path in
/// `visited`; `UnknownTypeId` exactly when an id reached from it does not
/// resolve.
pub fn get_type_hash(registry: &TypeRegistry, id: u32, visited: &Vec<u32>) -> (r: Result<
    [u8; 32],
    HashError,
>)
    ensures
        digest_result_matches(r, s_type_hash(registry@, id, visited@.to_set())),
    decreases unvisited_count(registry@, visited@.to_set()), 0int, 0int,
{
    let ghost reg = registry@;
    let ghost vs = visited@.to_set();
    match registry.resolve(id) {
        Option::None => Result::Err(HashError::UnknownTypeId(id)),
        Option::Some(ty) => {
            let mut bytes: Vec<u8> = Vec::new();
            bytes.push(TYPE_TAG);
            encode_segments_to(&ty.path, &mut bytes);
            let ghost base = seq![TYPE_TAG] + enc_segments(ty@.path);
            proof {
                assert(bytes@ =~= base);
            }
            if vec_contains(visited, id) {
                proof {
                    assert(vs.contains(id));
                }
                Result::Ok(hash(&bytes))
            } else {
                proof {
                    assert(!vs.contains(id));
                    lemma_resolve_in_ids(reg, id);
                    lemma_unvisited_decreases(reg, vs, id);
                }
                let v2 = copy_push(visited, id);
                proof {
                    visited@.lemma_push_to_set_commute(id);
                    assert(v2@.to_set() =~= vs.insert(id));
                }
                match get_type_def_hash(registry, &ty.def, &v2) {
                    Result::Ok(d) => {
                        push_digest(&d, &mut bytes);
                        proof {
                            assert(bytes@ =~= base + d@);
                        }
                        Result::Ok(hash(&bytes))
                    },
                    Result::Err(e) => Result::Err(e),
                }
            }
        },
    }
}

/// Digest of the extrinsic envelope description.
#[verifier::loop_isolation(false)]
pub fn get_extrinsic_hash(registry: &TypeRegistry, extrinsic: &ExtrinsicSchema) -> (r: Result<
    [u8; 32],
    HashError,
>)
    ensures
        digest_result_matches(r, s_extrinsic_hash(registry@, extrinsic@)),
{
    let ghost reg = registry@;
    let ghost exv = extrinsic@;
    let fresh: Vec<u32> = Vec::new();
    proof {
        assert(fresh@.to_set() =~= Set::<u32>::empty());
    }
    let mut bytes: Vec<u8> = Vec::new();
    bytes.push(EXTRINSIC_TAG);
    let d0 = match get_type_hash(registry, extrinsic.ty, &fresh) {
        Result::Ok(d) => d,
        Result::Err(e) => {
            return Result::Err(e);
        },
    };
    push_digest(&d0, &mut bytes);
    bytes.push(extrinsic.version);
    let ghost pre = seq![EXTRINSIC_TAG] + d0@ + seq![exv.version];
    proof {
        assert(bytes@ =~= pre);
        assert(exv.signed_extensions.skip(0) =~= exv.signed_extensions);
    }
    let n = extrinsic.signed_extensions.len();
    let mut i: usize = 0;
    while i < n
        invariant
            n == extrinsic.signed_extensions.len(),
            i <= n,
            reg == registry@,
            exv == extrinsic@,
            fresh@.to_set() == Set::<u32>::empty(),
            fresh@.len() == 0,
            pre == seq![EXTRINSIC_TAG] + d0@ + seq![exv.version],
            bytes@.len() >= pre.len(),
            bytes@.take(pre.len() as int) == pre,
            rcat(
                Result::Ok(bytes@.skip(pre.len() as int)),
                s_exts_bytes(reg, exv.signed_extensions.skip(i as int)),
            ) == s_exts_bytes(reg, exv.signed_extensions),
        decreases n - i,
    {
        let ghost exts = exv.signed_extensions;
        proof {
            assert(exts.skip(i as int).len() > 0);
            assert(exts.skip(i as int)[0] == exts[i as int]);
            assert(exts.skip(i as int).drop_first() =~= exts.skip(i as int + 1));
            assert(extrinsic.signed_extensions@[i as int]@ == exts[i as int]);
        }
        let e = &extrinsic.signed_extensions[i];
        let ghost acc = bytes@.skip(pre.len() as int);
        encode_str_to(e.identifier.as_str(), &mut bytes);
        let d1 = match get_type_hash(registry, e.ty, &fresh) {
            Result::Ok(d) => d,
            Result::Err(err) => {
                proof {
                    assert(s_ext_bytes(reg, exts[i as int]) is Err);
                    assert(s_exts_bytes(reg, exts.skip(i as int)) is Err);
                    assert(s_exts_bytes(reg, exts) == s_exts_bytes(reg, exts.skip(i as int)));
                }
                return Result::Err(err);
            },
        };
        push_digest(&d1, &mut bytes);
        let d2 = match get_type_hash(registry, e.additional_signed, &fresh) {
            Result::Ok(d) => d,
            Result::Err(err) => {
                proof {
                    assert(s_ext_bytes(reg, exts[i as int]) is Err);
                    assert(s_exts_bytes(reg, exts.skip(i as int)) is Err);
                    assert(s_exts_bytes(reg, exts) == s_exts_bytes(reg, exts.skip(i as int)));
                }
                return Result::Err(err);
            },
        };
        push_digest(&d2, &mut bytes);
        proof {
            assert(bytes@.take(pre.len() as int) =~= pre);
            assert(bytes@.skip(pre.len() as int) =~= acc + (enc_str(exts[i as int].identifier) + (d1@
                + d2@)));
            assert(s_ext_bytes(reg, exts[i as int]) == Result::<Seq<u8>, u32>::Ok(
                enc_str(exts[i as int].identifier) + (d1@ + d2@),
            ));
            lemma_rcat_assoc(
                Result::Ok(acc),
                s_ext_bytes(reg, exts[i as int]),
                s_exts_bytes(reg, exts.skip(i as int + 1)),
            );
        }
        i = i + 1;
    }
    proof {
        assert(exv.signed_extensions.skip(n as int) =~= Seq::<SignedExtensionV>::empty());
        lemma_rcat_empty(Result::Ok(bytes@.skip(pre.len() as int)));
        assert(bytes@ =~= pre + bytes@.skip(pre.len() as int));
        assert(bytes@ =~= seq![EXTRINSIC_TAG] + (d0@ + (seq![exv.version] + bytes@.skip(
            pre.len() as int,
        ))));
    }
    Result::Ok(hash(&bytes))
}

} // verus!
