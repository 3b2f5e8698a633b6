//! The schema composer: module-level digests, the caller-owned hashing
//! session that memoizes them, and the whole-schema digest with its
//! digest-sorted, order-independent concatenation.

use vstd::prelude::*;
use vstd::utf8::encode_utf8;
use crate::schema::{
    Constant, ConstantV, HashError, ModuleSchema, ModuleSchemaV, RootSchema, RootSchemaV,
    StorageEntry, StorageEntryKind, StorageEntryKindV, StorageEntryV, StorageSchema,
    StorageSchemaV, TypeDefinitionV, TypeRegistry,
};
use crate::encode::{
    enc_hashers, encode_hashers_to, extend_slice_to, extend_str_bytes_to, modifier_byte,
    modifier_tag, push_digest,
};
use crate::hasher::{
    digest_result_matches, hash, rcat, rsha, s_type_hash, sha256_of, s_extrinsic_hash, PALLET_TAG,
};
use crate::order::{dv, sort_digests, sort_digest_vec, str_eq};

verus! {

/// First-match lookup in the session's association list.
pub open spec fn cache_lookup(s: Seq<(Seq<char>, Seq<u8>)>, k: Seq<char>) -> Option<Seq<u8>>
    decreases s.len(),
{
    if s.len() == 0 {
        Option::None
    } else if s[0].0 == k {
        Option::Some(s[0].1)
    } else {
        cache_lookup(s.drop_first(), k)
    }
}

proof fn lemma_cache_lookup_push(s: Seq<(Seq<char>, Seq<u8>)>, p: (Seq<char>, Seq<u8>), k: Seq<char>)
    ensures
        cache_lookup(s.push(p), k) == if cache_lookup(s, k) is Some {
            cache_lookup(s, k)
        } else if p.0 == k {
            Option::Some(p.1)
        } else {
            Option::<Seq<u8>>::None
        },
    decreases s.len(),
{
    if s.len() == 0 {
        assert(s.push(p)[0] == p);
        assert(s.push(p).drop_first() =~= Seq::<(Seq<char>, Seq<u8>)>::empty());
    } else {
        assert(s.push(p)[0] == s[0]);
        assert(s.push(p).drop_first() =~= s.drop_first().push(p));
        lemma_cache_lookup_push(s.drop_first(), p, k);
    }
}

/// A hashing session: the caller-owned cache of module digests for one
/// hashing run over one registry.  Its view is the map from module name to
/// memoized digest.
pub struct MetadataHasherCache {
    entries: Vec<(String, [u8; 32])>,
}

impl View for MetadataHasherCache {
    type V = Map<Seq<char>, Seq<u8>>;

    closed spec fn view(&self) -> Map<Seq<char>, Seq<u8>> {
        let s = self.entries@.map_values(|p: (String, [u8; 32])| (p.0@, p.1@));
        Map::new(
            |k: Seq<char>| cache_lookup(s, k) is Some,
            |k: Seq<char>|
                match cache_lookup(s, k) {
                    Option::Some(v) => v,
                    Option::None => Seq::empty(),
                },
        )
    }
}

impl MetadataHasherCache {
    /// Creates an empty session.
    pub fn new() -> (r: MetadataHasherCache)
        ensures
            r@ == Map::<Seq<char>, Seq<u8>>::empty(),
    {
        let r = MetadataHasherCache { entries: Vec::new() };
        proof {
            assert(r.entries@.map_values(|p: (String, [u8; 32])| (p.0@, p.1@)) =~= Seq::<
                (Seq<char>, Seq<u8>),
            >::empty());
            assert(r@ =~= Map::<Seq<char>, Seq<u8>>::empty());
        }
        r
    }

    /// The memoized digest under the given module name, if any.
    pub fn get(&self, name: &str) -> (r: Option<[u8; 32]>)
        ensures
            match r {
                Option::Some(d) => self@.contains_key(name@) && self@[name@] == d@,
                Option::None => !self@.contains_key(name@),
            },
    {
        let ghost s = self.entries@.map_values(|p: (String, [u8; 32])| (p.0@, p.1@));
        let n = self.entries.len();
        let mut i: usize = 0;
        proof {
            assert(s.skip(0) =~= s);
        }
        while i < n
            invariant
                n == self.entries.len(),
                i <= n,
                s == self.entries@.map_values(|p: (String, [u8; 32])| (p.0@, p.1@)),
                cache_lookup(s, name@) == cache_lookup(s.skip(i as int), name@),
            decreases n - i,
        {
            proof {
                assert(s.skip(i as int).len() > 0);
                assert(s.skip(i as int)[0] == s[i as int]);
                assert(s.skip(i as int).drop_first() =~= s.skip(i as int + 1));
            }
            if str_eq(self.entries[i].0.as_str(), name) {
                return Option::Some(self.entries[i].1);
            }
            i = i + 1;
        }
        proof {
            assert(s.skip(n as int) =~= Seq::<(Seq<char>, Seq<u8>)>::empty());
        }
        Option::None
    }

    /// Memoizes a freshly computed digest under a name not yet present.
    fn put(&mut self, name: &String, d: [u8; 32])
        requires
            !old(self)@.contains_key(name@),
        ensures
            final(self)@ == old(self)@.insert(name@, d@),
    {
        let ghost s0 = self.entries@.map_values(|p: (String, [u8; 32])| (p.0@, p.1@));
        let nc = name.clone();
        self.entries.push((nc, d));
        proof {
            let s1 = self.entries@.map_values(|p: (String, [u8; 32])| (p.0@, p.1@));
            assert(s1 =~= s0.push((name@, d@)));
            assert forall|k: Seq<char>| true implies cache_lookup(s1, k) == (if cache_lookup(s0, k) is Some {
                cache_lookup(s0, k)
            } else if k == name@ {
                Option::Some(d@)
            } else {
                Option::<Seq<u8>>::None
            }) by {
                lemma_cache_lookup_push(s0, (name@, d@), k);
            }
            assert(final(self)@ =~= old(self)@.insert(name@, d@));
        }
    }
}

impl Default for MetadataHasherCache {
    /// An empty session.
    fn default() -> (r: MetadataHasherCache)
        ensures
            r@ == Map::<Seq<char>, Seq<u8>>::empty(),
    {
        MetadataHasherCache::new()
    }
}

/// How an executable byte-string result corresponds to its model.
pub open spec fn bytes_result_matches(r: Result<Vec<u8>, HashError>, s: Result<Seq<u8>, u32>) -> bool {
    match r {
        Result::Ok(b) => s == Result::<Seq<u8>, u32>::Ok(b@),
        Result::Err(HashError::UnknownTypeId(i)) => s == Result::<Seq<u8>, u32>::Err(i),
        Result::Err(HashError::UnsupportedSchemaVersion) => false,
    }
}

/// The bytes an optional type reference contributes: its digest, or nothing.
pub open spec fn s_opt_type_bytes(reg: Seq<(u32, TypeDefinitionV)>, o: Option<u32>) -> Result<
    Seq<u8>,
    u32,
> {
    match o {
        Option::None => Result::Ok(Seq::empty()),
        Option::Some(id) => s_type_hash(reg, id, Set::empty()),
    }
}

/// The bytes one constant contributes: raw name bytes, raw default bytes,
/// then its type's digest.
pub open spec fn s_const_bytes(reg: Seq<(u32, TypeDefinitionV)>, c: ConstantV) -> Result<Seq<u8>, u32> {
    rcat(Result::Ok(encode_utf8(c.name) + c.value), s_type_hash(reg, c.ty, Set::empty()))
}

pub open spec fn s_consts_bytes(reg: Seq<(u32, TypeDefinitionV)>, cs: Seq<ConstantV>) -> Result<
    Seq<u8>,
    u32,
>
    decreases cs.len(),
{
    if cs.len() == 0 {
        Result::Ok(Seq::empty())
    } else {
        rcat(s_const_bytes(reg, cs[0]), s_consts_bytes(reg, cs.drop_first()))
    }
}

/// The bytes a storage entry's shape contributes: a plain value type's
/// digest, or the hasher list and the key and value type digests.
pub open spec fn s_entry_kind_bytes(reg: Seq<(u32, TypeDefinitionV)>, k: StorageEntryKindV) -> Result<
    Seq<u8>,
    u32,
> {
    match k {
        StorageEntryKindV::Plain { ty } => s_type_hash(reg, ty, Set::empty()),
        StorageEntryKindV::Mapped { hashers, key, value } => rcat(
            Result::Ok(enc_hashers(hashers)),
            rcat(s_type_hash(reg, key, Set::empty()), s_type_hash(reg, value, Set::empty())),
        ),
    }
}

/// The bytes one storage entry contributes: raw name bytes, the modifier
/// tag, its shape, then its raw default bytes.
pub open spec fn s_entry_bytes(reg: Seq<(u32, TypeDefinitionV)>, e: StorageEntryV) -> Result<
    Seq<u8>,
    u32,
> {
    rcat(
        Result::Ok(encode_utf8(e.name) + seq![modifier_byte(e.modifier)]),
        rcat(s_entry_kind_bytes(reg, e.ty), Result::Ok(e.default)),
    )
}

pub open spec fn s_entries_bytes(reg: Seq<(u32, TypeDefinitionV)>, es: Seq<StorageEntryV>) -> Result<
    Seq<u8>,
    u32,
>
    decreases es.len(),
{
    if es.len() == 0 {
        Result::Ok(Seq::empty())
    } else {
        rcat(s_entry_bytes(reg, es[0]), s_entries_bytes(reg, es.drop_first()))
    }
}

/// The bytes a module's storage section contributes: raw prefix bytes, then
/// its entries in declared order.
pub open spec fn s_storage_bytes(reg: Seq<(u32, TypeDefinitionV)>, st: Option<StorageSchemaV>) -> Result<
    Seq<u8>,
    u32,
> {
    match st {
        Option::None => Result::Ok(Seq::empty()),
        Option::Some(s) => rcat(Result::Ok(encode_utf8(s.prefix)), s_entries_bytes(reg, s.entries)),
    }
}

/// Digest of one module: the pallet tag, then calls, event, constants, error
/// and storage contributions in that fixed order, reduced through the hash.
pub open spec fn s_pallet_hash(reg: Seq<(u32, TypeDefinitionV)>, m: ModuleSchemaV) -> Result<
    Seq<u8>,
    u32,
> {
    rsha(
        seq![PALLET_TAG],
        rcat(
            s_opt_type_bytes(reg, m.calls),
            rcat(
                s_opt_type_bytes(reg, m.event),
                rcat(
                    s_consts_bytes(reg, m.constants),
                    rcat(s_opt_type_bytes(reg, m.error), s_storage_bytes(reg, m.storage)),
                ),
            ),
        ),
    )
}

/// One module digest under a session: a memoized digest is returned as it
/// stands, with no recomputation; otherwise the digest is computed and
/// memoized.  The session is unchanged when the module fails to hash.
pub open spec fn s_pallet_cached(
    cache: Map<Seq<char>, Seq<u8>>,
    reg: Seq<(u32, TypeDefinitionV)>,
    m: ModuleSchemaV,
) -> (Result<Seq<u8>, u32>, Map<Seq<char>, Seq<u8>>) {
    if cache.contains_key(m.name) {
        (Result::Ok(cache[m.name]), cache)
    } else {
        match s_pallet_hash(reg, m) {
            Result::Ok(d) => (Result::Ok(d), cache.insert(m.name, d)),
            Result::Err(e) => (Result::Err(e), cache),
        }
    }
}

/// All module digests in declaration order, threading the session through;
/// the first failing module stops the run.
pub open spec fn s_hash_modules(
    cache: Map<Seq<char>, Seq<u8>>,
    reg: Seq<(u32, TypeDefinitionV)>,
    mods: Seq<ModuleSchemaV>,
) -> (Result<Seq<Seq<u8>>, u32>, Map<Seq<char>, Seq<u8>>)
    decreases mods.len(),
{
    if mods.len() == 0 {
        (Result::Ok(Seq::empty()), cache)
    } else {
        let head = s_pallet_cached(cache, reg, mods[0]);
        match head.0 {
            Result::Err(e) => (Result::Err(e), head.1),
            Result::Ok(d) => {
                let rest = s_hash_modules(head.1, reg, mods.drop_first());
                match rest.0 {
                    Result::Err(e) => (Result::Err(e), rest.1),
                    Result::Ok(ds) => (Result::Ok(seq![d] + ds), rest.1),
                }
            },
        }
    }
}

/// The concatenation of a digest list.
pub open spec fn concat_digests(ds: Seq<Seq<u8>>) -> Seq<u8>
    decreases ds.len(),
{
    if ds.len() == 0 {
        Seq::empty()
    } else {
        ds[0] + concat_digests(ds.drop_first())
    }
}

/// Digest of the whole schema under a session: every module's digest, sorted
/// by digest value (names are excluded), then the extrinsic digest, then the
/// root call type's digest, reduced through the hash once more.
pub open spec fn s_metadata_hash_cached(cache: Map<Seq<char>, Seq<u8>>, root: RootSchemaV) -> (
    Result<Seq<u8>, u32>,
    Map<Seq<char>, Seq<u8>>,
) {
    let run = s_hash_modules(cache, root.types, root.pallets);
    match run.0 {
        Result::Err(e) => (Result::Err(e), run.1),
        Result::Ok(ds) => match s_extrinsic_hash(root.types, root.extrinsic) {
            Result::Err(e) => (Result::Err(e), run.1),
            Result::Ok(exb) => match s_type_hash(root.types, root.ty, Set::empty()) {
                Result::Err(e) => (Result::Err(e), run.1),
                Result::Ok(tyb) => (
                    Result::Ok(sha256_of(concat_digests(sort_digests(ds)) + exb + tyb)),
                    run.1,
                ),
            },
        },
    }
}

/// Digest of the whole schema, from a fresh session.
pub open spec fn s_metadata_hash(root: RootSchemaV) -> Result<Seq<u8>, u32> {
    s_metadata_hash_cached(Map::empty(), root).0
}

/// The bytes of an optional type reference.
#[verifier::loop_isolation(false)]
fn opt_type_bytes(registry: &TypeRegistry, o: &Option<u32>) -> (r: Result<Vec<u8>, HashError>)
    ensures
        bytes_result_matches(r, s_opt_type_bytes(registry@, *o)),
{
    let mut out: Vec<u8> = Vec::new();
    match o {
        Option::None => Result::Ok(out),
        Option::Some(id) => {
            let fresh: Vec<u32> = Vec::new();
            proof {
                assert(fresh@.to_set() =~= Set::<u32>::empty());
            }
            match crate::hasher::get_type_hash(registry, *id, &fresh) {
                Result::Ok(d) => {
                    push_digest(&d, &mut out);
                    proof {
                        assert(out@ =~= d@);
                    }
                    Result::Ok(out)
                },
                Result::Err(e) => Result::Err(e),
            }
        },
    }
}

/// The bytes of a module's constants, in declared order.
#[verifier::loop_isolation(false)]
fn consts_bytes(registry: &TypeRegistry, cs: &Vec<Constant>) -> (r: Result<Vec<u8>, HashError>)
    ensures
        bytes_result_matches(r, s_consts_bytes(registry@, cs@.map_values(|c: Constant| c@))),
{
    let ghost reg = registry@;
    let ghost cv = cs@.map_values(|c: Constant| c@);
    let mut out: Vec<u8> = Vec::new();
    let fresh: Vec<u32> = Vec::new();
    proof {
        assert(fresh@.to_set() =~= Set::<u32>::empty());
        assert(cv.skip(0) =~= cv);
    }
    let n = cs.len();
    let mut i: usize = 0;
    while i < n
        invariant
            n == cs.len(),
            i <= n,
            rcat(Result::Ok(out@), s_consts_bytes(reg, cv.skip(i as int))) == s_consts_bytes(
                reg,
                cv,
            ),
        decreases n - i,
    {
        proof {
            assert(cv.skip(i as int).len() > 0);
            assert(cv.skip(i as int)[0] == cv[i as int]);
            assert(cv.skip(i as int).drop_first() =~= cv.skip(i as int + 1));
            assert(cs@[i as int]@ == cv[i as int]);
        }
        let ghost acc = out@;
        let c = &cs[i];
        extend_str_bytes_to(c.name.as_str(), &mut out);
        extend_slice_to(c.value.as_slice(), &mut out);
        match crate::hasher::get_type_hash(registry, c.ty, &fresh) {
            Result::Ok(d) => {
                push_digest(&d, &mut out);
                proof {
                    assert(out@ =~= acc + ((encode_utf8(cv[i as int].name) + cv[i as int].value)
                        + d@));
                    assert(s_const_bytes(reg, cv[i as int]) == Result::<Seq<u8>, u32>::Ok(
                        (encode_utf8(cv[i as int].name) + cv[i as int].value) + d@,
                    ));
                    crate::hasher::lemma_rcat_assoc(
                        Result::Ok(acc),
                        s_const_bytes(reg, cv[i as int]),
                        s_consts_bytes(reg, cv.skip(i as int + 1)),
                    );
                }
            },
            Result::Err(e) => {
                return Result::Err(e);
            },
        }
        i = i + 1;
    }
    proof {
        assert(cv.skip(n as int) =~= Seq::<ConstantV>::empty());
        crate::hasher::lemma_rcat_empty(Result::Ok(out@));
    }
    Result::Ok(out)
}

/// The bytes of a module's storage section, if it has one.
#[verifier::loop_isolation(false)]
#[verifier::rlimit(100)]
fn storage_bytes(registry: &TypeRegistry, st: &Option<StorageSchema>) -> (r: Result<Vec<u8>, HashError>)
    ensures
        bytes_result_matches(
            r,
            s_storage_bytes(
                registry@,
                match st {
                    Option::Some(s) => Option::Some(s@),
                    Option::None => Option::<StorageSchemaV>::None,
                },
            ),
        ),
{
    let ghost reg = registry@;
    let mut out: Vec<u8> = Vec::new();
    let sto = match st {
        Option::None => {
            return Result::Ok(out);
        },
        Option::Some(s) => s,
    };
    let ghost ev = sto.entries@.map_values(|e: StorageEntry| e@);
    let fresh: Vec<u32> = Vec::new();
    proof {
        assert(fresh@.to_set() =~= Set::<u32>::empty());
        assert(ev.skip(0) =~= ev);
    }
    extend_str_bytes_to(sto.prefix.as_str(), &mut out);
    let ghost pre = encode_utf8(sto@.prefix);
    let n = sto.entries.len();
    let mut i: usize = 0;
    while i < n
        invariant
            n == sto.entries.len(),
            i <= n,
            out@.len() >= pre.len(),
            out@.take(pre.len() as int) == pre,
            rcat(Result::Ok(out@.skip(pre.len() as int)), s_entries_bytes(reg, ev.skip(i as int)))
                == s_entries_bytes(reg, ev),
        decreases n - i,
    {
        proof {
            assert(ev.skip(i as int).len() > 0);
            assert(ev.skip(i as int)[0] == ev[i as int]);
            assert(ev.skip(i as int).drop_first() =~= ev.skip(i as int + 1));
            assert(sto.entries@[i as int]@ == ev[i as int]);
        }
        let ghost acc = out@.skip(pre.len() as int);
        let e = &sto.entries[i];
        extend_str_bytes_to(e.name.as_str(), &mut out);
        let mt = modifier_tag(e.modifier);
        out.push(mt);
        let kind_bytes: Vec<u8> = match &e.ty {
            StorageEntryKind::Plain { ty } => {
                match crate::hasher::get_type_hash(registry, *ty, &fresh) {
                    Result::Ok(d) => {
                        let mut kb: Vec<u8> = Vec::new();
                        push_digest(&d, &mut kb);
                        proof {
                            assert(kb@ =~= d@);
                        }
                        kb
                    },
                    Result::Err(err) => {
                        proof {
                            assert(s_entry_bytes(reg, ev[i as int]) is Err);
                            assert(s_entries_bytes(reg, ev.skip(i as int)) is Err);
                        }
                        return Result::Err(err);
                    },
                }
            },
            StorageEntryKind::Mapped { hashers, key, value } => {
                let mut kb: Vec<u8> = Vec::new();
                encode_hashers_to(hashers, &mut kb);
                let d1 = match crate::hasher::get_type_hash(registry, *key, &fresh) {
                    Result::Ok(d) => d,
                    Result::Err(err) => {
                        proof {
                            assert(s_entry_kind_bytes(reg, ev[i as int].ty) is Err);
                            assert(s_entry_bytes(reg, ev[i as int]) is Err);
                            assert(s_entries_bytes(reg, ev.skip(i as int)) is Err);
                        }
                        return Result::Err(err);
                    },
                };
                push_digest(&d1, &mut kb);
                let d2 = match crate::hasher::get_type_hash(registry, *value, &fresh) {
                    Result::Ok(d) => d,
                    Result::Err(err) => {
                        proof {
                            assert(s_entry_kind_bytes(reg, ev[i as int].ty) is Err);
                            assert(s_entry_bytes(reg, ev[i as int]) is Err);
                            assert(s_entries_bytes(reg, ev.skip(i as int)) is Err);
                        }
                        return Result::Err(err);
                    },
                };
                push_digest(&d2, &mut kb);
                proof {
                    assert(kb@ =~= enc_hashers(ev[i as int].ty->Mapped_hashers) + (d1@ + d2@));
                    assert(s_entry_kind_bytes(reg, ev[i as int].ty) == Result::<Seq<u8>, u32>::Ok(
                        kb@,
                    ));
                }
                kb
            },
        };
        extend_slice_to(kind_bytes.as_slice(), &mut out);
        extend_slice_to(e.default.as_slice(), &mut out);
        proof {
            assert(out@.take(pre.len() as int) =~= pre);
            assert(out@.skip(pre.len() as int) =~= acc + ((encode_utf8(ev[i as int].name) + seq![
                modifier_byte(ev[i as int].modifier),
            ]) + (kind_bytes@ + ev[i as int].default)));
            assert(s_entry_bytes(reg, ev[i as int]) == Result::<Seq<u8>, u32>::Ok(
                (encode_utf8(ev[i as int].name) + seq![modifier_byte(ev[i as int].modifier)]) + (
                kind_bytes@ + ev[i as int].default),
            ));
            crate::hasher::lemma_rcat_assoc(
                Result::Ok(acc),
                s_entry_bytes(reg, ev[i as int]),
                s_entries_bytes(reg, ev.skip(i as int + 1)),
            );
        }
        i = i + 1;
    }
    proof {
        assert(ev.skip(n as int) =~= Seq::<StorageEntryV>::empty());
        crate::hasher::lemma_rcat_empty(Result::Ok(out@.skip(pre.len() as int)));
        assert(out@ =~= pre + out@.skip(pre.len() as int));
    }
    Result::Ok(out)
}

/// Digest of one module under the given session: a memoized digest for the
/// module's name is returned unchanged; otherwise the digest is computed,
/// memoized under the name, and returned.  `UnknownTypeId` exactly when a
/// type id reached from the module does not resolve, with the session left
/// as it was.
#[verifier::loop_isolation(false)]
#[verifier::rlimit(100)]
pub fn get_pallet_hash(
    registry: &TypeRegistry,
    pallet: &ModuleSchema,
    cache: &mut MetadataHasherCache,
) -> (r: Result<[u8; 32], HashError>)
    ensures
        digest_result_matches(r, s_pallet_cached(old(cache)@, registry@, pallet@).0),
        final(cache)@ == s_pallet_cached(old(cache)@, registry@, pallet@).1,
{
    let ghost reg = registry@;
    let ghost pv = pallet@;
    if let Option::Some(d) = cache.get(pallet.name.as_str()) {
        return Result::Ok(d);
    }
    let calls_b = match opt_type_bytes(registry, &pallet.calls) {
        Result::Ok(b) => b,
        Result::Err(e) => {
            return Result::Err(e);
        },
    };
    let event_b = match opt_type_bytes(registry, &pallet.event) {
        Result::Ok(b) => b,
        Result::Err(e) => {
            return Result::Err(e);
        },
    };
    let consts_b = match consts_bytes(registry, &pallet.constants) {
        Result::Ok(b) => b,
        Result::Err(e) => {
            return Result::Err(e);
        },
    };
    let error_b = match opt_type_bytes(registry, &pallet.error) {
        Result::Ok(b) => b,
        Result::Err(e) => {
            return Result::Err(e);
        },
    };
    let storage_b = match storage_bytes(registry, &pallet.storage) {
        Result::Ok(b) => b,
        Result::Err(e) => {
            return Result::Err(e);
        },
    };
    let mut bytes: Vec<u8> = Vec::new();
    bytes.push(PALLET_TAG);
    extend_slice_to(calls_b.as_slice(), &mut bytes);
    extend_slice_to(event_b.as_slice(), &mut bytes);
    extend_slice_to(consts_b.as_slice(), &mut bytes);
    extend_slice_to(error_b.as_slice(), &mut bytes);
    extend_slice_to(storage_b.as_slice(), &mut bytes);
    proof {
        assert(bytes@ =~= seq![PALLET_TAG] + (calls_b@ + (event_b@ + (consts_b@ + (error_b@
            + storage_b@)))));
        assert(s_pallet_hash(reg, pv) == Result::<Seq<u8>, u32>::Ok(
            sha256_of(
                seq![PALLET_TAG] + (calls_b@ + (event_b@ + (consts_b@ + (error_b@ + storage_b@)))),
            ),
        ));
    }
    let digest = hash(&bytes);
    cache.put(&pallet.name, digest);
    Result::Ok(digest)
}

/// Hashes every module in declaration order, threading the session through.
#[verifier::loop_isolation(false)]
fn hash_all_modules(metadata: &RootSchema, cache: &mut MetadataHasherCache) -> (r: Result<
    Vec<[u8; 32]>,
    HashError,
>)
    ensures
        ({
            let run = s_hash_modules(old(cache)@, metadata@.types, metadata@.pallets);
            &&& final(cache)@ == run.1
            &&& match r {
                Result::Ok(ds) => run.0 == Result::<Seq<Seq<u8>>, u32>::Ok(dv(ds@)),
                Result::Err(HashError::UnknownTypeId(i)) => run.0 == Result::<
                    Seq<Seq<u8>>,
                    u32,
                >::Err(i),
                Result::Err(HashError::UnsupportedSchemaVersion) => false,
            }
        }),
{
    let ghost c0 = old(cache)@;
    let ghost reg = metadata@.types;
    let ghost mods = metadata@.pallets;
    let mut digests: Vec<[u8; 32]> = Vec::new();
    proof {
        assert(mods.skip(0) =~= mods);
        assert(dv(digests@) =~= Seq::<Seq<u8>>::empty());
    }
    let n = metadata.pallets.len();
    let mut i: usize = 0;
    while i < n
        invariant
            n == metadata.pallets.len(),
            i <= n,
            ({
                let cur = s_hash_modules(cache@, reg, mods.skip(i as int));
                let tgt = s_hash_modules(c0, reg, mods);
                &&& tgt.1 == cur.1
                &&& tgt.0 == match cur.0 {
                    Result::Ok(ds) => Result::<Seq<Seq<u8>>, u32>::Ok(dv(digests@) + ds),
                    Result::Err(e) => Result::<Seq<Seq<u8>>, u32>::Err(e),
                }
            }),
        decreases n - i,
    {
        proof {
            assert(mods.skip(i as int).len() > 0);
            assert(mods.skip(i as int)[0] == mods[i as int]);
            assert(mods.skip(i as int).drop_first() =~= mods.skip(i as int + 1));
            assert(metadata.pallets@[i as int]@ == mods[i as int]);
        }
        match get_pallet_hash(&metadata.types, &metadata.pallets[i], cache) {
            Result::Ok(d) => {
                let ghost pre_dv = dv(digests@);
                digests.push(d);
                proof {
                    assert(dv(digests@) =~= pre_dv.push(d@));
                    let cur1 = s_hash_modules(cache@, reg, mods.skip(i as int + 1));
                    match cur1.0 {
                        Result::Ok(ds) => {
                            assert(pre_dv.push(d@) + ds =~= pre_dv + (seq![d@] + ds));
                        },
                        Result::Err(_) => {},
                    }
                }
            },
            Result::Err(e) => {
                return Result::Err(e);
            },
        }
        i = i + 1;
    }
    proof {
        assert(mods.skip(n as int) =~= Seq::<ModuleSchemaV>::empty());
        assert(dv(digests@) + Seq::<Seq<u8>>::empty() =~= dv(digests@));
    }
    Result::Ok(digests)
}

/// Sorts a digest list by value and concatenates it.
#[verifier::loop_isolation(false)]
fn concat_sorted(digests: Vec<[u8; 32]>) -> (out: Vec<u8>)
    ensures
        out@ == concat_digests(sort_digests(dv(digests@))),
{
    let sorted = sort_digest_vec(digests);
    let ghost sd = dv(sorted@);
    let mut bytes: Vec<u8> = Vec::new();
    proof {
        assert(sd.skip(0) =~= sd);
    }
    let m = sorted.len();
    let mut k: usize = 0;
    while k < m
        invariant
            m == sorted.len(),
            k <= m,
            bytes@ + concat_digests(sd.skip(k as int)) == concat_digests(sd),
        decreases m - k,
    {
        proof {
            assert(sd.skip(k as int).len() > 0);
            assert(sd.skip(k as int)[0] == sd[k as int]);
            assert(sd.skip(k as int).drop_first() =~= sd.skip(k as int + 1));
            assert(dv(sorted@)[k as int] == sorted@[k as int]@);
        }
        let ghost acc = bytes@;
        push_digest(&sorted[k], &mut bytes);
        proof {
            assert(bytes@ + concat_digests(sd.skip(k as int + 1)) =~= acc + concat_digests(
                sd.skip(k as int),
            ));
        }
        k = k + 1;
    }
    proof {
        assert(concat_digests(sd.skip(m as int)) =~= Seq::<u8>::empty());
        assert(bytes@ + Seq::<u8>::empty() =~= bytes@);
    }
    bytes
}

/// Digest of the whole schema under the given session: each module hashed
/// (or taken from the session) in declaration order, the module digests
/// sorted by value and concatenated, then the extrinsic digest and the root
/// call type's digest appended, and the result hashed once more.
pub fn get_metadata_hash(metadata: &RootSchema, cache: &mut MetadataHasherCache) -> (r: Result<
    [u8; 32],
    HashError,
>)
    ensures
        digest_result_matches(r, s_metadata_hash_cached(old(cache)@, metadata@).0),
        final(cache)@ == s_metadata_hash_cached(old(cache)@, metadata@).1,
{
    let digests = match hash_all_modules(metadata, cache) {
        Result::Ok(ds) => ds,
        Result::Err(e) => {
            return Result::Err(e);
        },
    };
    let exd = match crate::hasher::get_extrinsic_hash(&metadata.types, &metadata.extrinsic) {
        Result::Ok(d) => d,
        Result::Err(e) => {
            return Result::Err(e);
        },
    };
    let fresh: Vec<u32> = Vec::new();
    proof {
        assert(fresh@.to_set() =~= Set::<u32>::empty());
    }
    let tyd = match crate::hasher::get_type_hash(&metadata.types, metadata.ty, &fresh) {
        Result::Ok(d) => d,
        Result::Err(e) => {
            return Result::Err(e);
        },
    };
    let mut bytes = concat_sorted(digests);
    push_digest(&exd, &mut bytes);
    push_digest(&tyd, &mut bytes);
    proof {
        let run = s_hash_modules(old(cache)@, metadata@.types, metadata@.pallets);
        assert(bytes@ =~= concat_digests(sort_digests(run.0 ->Ok_0)) + exd@ + tyd@);
    }
    Result::Ok(hash(&bytes))
}

} // verus!
