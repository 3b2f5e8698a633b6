use metadata_hasher::compose::{get_metadata_hash, get_pallet_hash, MetadataHasherCache};
use metadata_hasher::hasher::{get_type_def_hash, get_type_hash};
use metadata_hasher::schema::{
    Constant, ExtrinsicSchema, Field, HashError, ModuleSchema, Primitive, RootSchema,
    SignedExtension, StorageEntry, StorageEntryKind, StorageHasher, StorageModifier,
    StorageSchema, TypeDefKind, TypeDefinition, TypeRegistry, VariantDef,
};

fn u32_type() -> TypeDefinition {
    TypeDefinition {
        path: Vec::new(),
        def: TypeDefKind::Primitive { prim: Primitive::U32 },
    }
}

/// A registry holding a single primitive `u32` under id 7.
fn small_registry() -> TypeRegistry {
    let mut reg = TypeRegistry::new();
    reg.register(7, u32_type());
    reg
}

fn balances_module(default: Vec<u8>) -> ModuleSchema {
    ModuleSchema {
        name: "Balances".to_string(),
        calls: None,
        event: None,
        constants: Vec::new(),
        error: None,
        storage: Some(StorageSchema {
            prefix: "Balances".to_string(),
            entries: vec![StorageEntry {
                name: "TotalIssuance".to_string(),
                modifier: StorageModifier::Required,
                ty: StorageEntryKind::Plain { ty: 7 },
                default,
            }],
        }),
    }
}

fn system_module() -> ModuleSchema {
    ModuleSchema {
        name: "System".to_string(),
        calls: Some(7),
        event: None,
        constants: vec![Constant {
            name: "BlockWeight".to_string(),
            value: vec![1, 2, 3, 4],
            ty: 7,
        }],
        error: None,
        storage: None,
    }
}

fn small_extrinsic() -> ExtrinsicSchema {
    ExtrinsicSchema {
        ty: 7,
        version: 4,
        signed_extensions: vec![SignedExtension {
            identifier: "CheckNonce".to_string(),
            ty: 7,
            additional_signed: 7,
        }],
    }
}

fn small_schema(default: Vec<u8>) -> RootSchema {
    RootSchema {
        types: small_registry(),
        pallets: vec![balances_module(default), system_module()],
        extrinsic: small_extrinsic(),
        ty: 7,
    }
}

#[test]
fn check_pallet_cache() {
    static PALLET_NAME: &str = "Balances";

    let registry = small_registry();
    let mut cache = MetadataHasherCache::new();
    // Cache must be empty.
    assert!(cache.get(PALLET_NAME).is_none());

    let pallet = balances_module(vec![0, 0, 0, 0]);
    let hash = get_pallet_hash(&registry, &pallet, &mut cache).unwrap();
    let cached_hash = cache
        .get(PALLET_NAME)
        .expect("Pallet cache should be present");

    // Cache entry must exist after calculation.
    assert_eq!(hash, cached_hash);
}

#[test]
fn cache_deterministic_hash() {
    let registry = small_registry();
    let pallets = vec![balances_module(vec![0, 0, 0, 0]), system_module()];

    // Cache intermediate pallet hashes, utilizing a different cache each time.
    let mut cache_per_pallet = Vec::new();
    for pallet in pallets.iter() {
        let mut cache = MetadataHasherCache::new();
        cache_per_pallet.push((
            pallet.name.clone(),
            get_pallet_hash(&registry, pallet, &mut cache).unwrap(),
        ));
    }

    // Utilizing the same cache for pallet hashes must not result in different results.
    let mut cache = MetadataHasherCache::new();
    let mut one_cache = Vec::new();
    for pallet in pallets.iter() {
        one_cache.push((
            pallet.name.clone(),
            get_pallet_hash(&registry, pallet, &mut cache).unwrap(),
        ));
    }

    assert_eq!(cache_per_pallet, one_cache);
}

#[test]
fn check_metadata_cache() {
    let metadata = small_schema(vec![0, 0, 0, 0]);

    // Cache must be populated with pallet hashes.
    let mut cache = MetadataHasherCache::new();
    let _hash = get_metadata_hash(&metadata, &mut cache).unwrap();

    // Compare cache with individual pallets
    for pallet in metadata.pallets.iter() {
        let mut inner_cache = MetadataHasherCache::new();

        // Compare a fresh iteration over pallet with cache value.
        let hash = get_pallet_hash(&metadata.types, pallet, &mut inner_cache).unwrap();
        assert_eq!(cache.get(pallet.name.as_str()).unwrap(), hash);

        // Recalling pallet should result in the same value, even if populated by metadata.
        let re_hash = get_pallet_hash(&metadata.types, pallet, &mut cache).unwrap();
        assert_eq!(cache.get(pallet.name.as_str()).unwrap(), re_hash);
    }
}

#[test]
fn concrete_storage_schema() {
    // One u32 type (id 7), one module "Balances" with one storage entry
    // "TotalIssuance", required, Plain(7), default [0,0,0,0].
    let schema = RootSchema {
        types: small_registry(),
        pallets: vec![balances_module(vec![0, 0, 0, 0])],
        extrinsic: small_extrinsic(),
        ty: 7,
    };
    let mut c1 = MetadataHasherCache::new();
    let h1 = get_metadata_hash(&schema, &mut c1).unwrap();
    let mut c2 = MetadataHasherCache::new();
    let h2 = get_metadata_hash(&schema, &mut c2).unwrap();
    assert_eq!(h1, h2);

    let changed = RootSchema {
        types: small_registry(),
        pallets: vec![balances_module(vec![1, 0, 0, 0])],
        extrinsic: small_extrinsic(),
        ty: 7,
    };
    let mut c3 = MetadataHasherCache::new();
    let h3 = get_metadata_hash(&changed, &mut c3).unwrap();
    assert_ne!(h1, h3);
}

#[test]
fn unknown_type_id() {
    // A storage entry referencing id 99 in a registry without id 99.
    let registry = small_registry();
    let pallet = ModuleSchema {
        name: "Broken".to_string(),
        calls: None,
        event: None,
        constants: Vec::new(),
        error: None,
        storage: Some(StorageSchema {
            prefix: "Broken".to_string(),
            entries: vec![StorageEntry {
                name: "Dangling".to_string(),
                modifier: StorageModifier::Optional,
                ty: StorageEntryKind::Plain { ty: 99 },
                default: Vec::new(),
            }],
        }),
    };
    let mut cache = MetadataHasherCache::new();
    let err = get_pallet_hash(&registry, &pallet, &mut cache).unwrap_err();
    assert_eq!(err, HashError::UnknownTypeId(99));
    // A failed module is not memoized.
    assert!(cache.get("Broken").is_none());
}

fn named_field(name: &str, ty: u32) -> Field {
    Field {
        name: Some(name.to_string()),
        ty_name: None,
        ty,
    }
}

#[test]
fn field_order_sensitivity() {
    let registry = small_registry();
    let ab = TypeDefKind::Composite {
        fields: vec![named_field("a", 7), named_field("b", 7)],
    };
    let ba = TypeDefKind::Composite {
        fields: vec![named_field("b", 7), named_field("a", 7)],
    };
    let visited = Vec::new();
    let h_ab = get_type_def_hash(&registry, &ab, &visited).unwrap();
    let h_ba = get_type_def_hash(&registry, &ba, &visited).unwrap();
    assert_ne!(h_ab, h_ba);
}

#[test]
fn variant_order_insensitivity() {
    let registry = small_registry();
    let first = VariantDef {
        name: "First".to_string(),
        fields: vec![named_field("a", 7)],
    };
    let second = VariantDef {
        name: "Second".to_string(),
        fields: Vec::new(),
    };
    let declared = TypeDefKind::Variant {
        variants: vec![
            VariantDef { name: first.name.clone(), fields: vec![named_field("a", 7)] },
            VariantDef { name: second.name.clone(), fields: Vec::new() },
        ],
    };
    let permuted = TypeDefKind::Variant {
        variants: vec![second, first],
    };
    let visited = Vec::new();
    let h1 = get_type_def_hash(&registry, &declared, &visited).unwrap();
    let h2 = get_type_def_hash(&registry, &permuted, &visited).unwrap();
    assert_eq!(h1, h2);
}

#[test]
fn module_order_independence() {
    let schema = small_schema(vec![0, 0, 0, 0]);
    let permuted = RootSchema {
        types: small_registry(),
        pallets: vec![system_module(), balances_module(vec![0, 0, 0, 0])],
        extrinsic: small_extrinsic(),
        ty: 7,
    };
    let mut c1 = MetadataHasherCache::new();
    let mut c2 = MetadataHasherCache::new();
    assert_eq!(
        get_metadata_hash(&schema, &mut c1).unwrap(),
        get_metadata_hash(&permuted, &mut c2).unwrap()
    );
}

#[test]
fn avalanche_constant_default() {
    let registry = small_registry();
    let mut cache = MetadataHasherCache::new();
    let base = get_pallet_hash(&registry, &system_module(), &mut cache).unwrap();

    let mut flipped = system_module();
    flipped.constants[0].value[2] ^= 1;
    let mut cache2 = MetadataHasherCache::new();
    let changed = get_pallet_hash(&registry, &flipped, &mut cache2).unwrap();
    assert_ne!(base, changed);
}

#[test]
fn avalanche_field_rename() {
    let registry = small_registry();
    let named = TypeDefKind::Composite {
        fields: vec![named_field("amount", 7)],
    };
    let renamed = TypeDefKind::Composite {
        fields: vec![named_field("amounts", 7)],
    };
    let visited = Vec::new();
    assert_ne!(
        get_type_def_hash(&registry, &named, &visited).unwrap(),
        get_type_def_hash(&registry, &renamed, &visited).unwrap()
    );

    let one = TypeDefKind::Variant {
        variants: vec![VariantDef { name: "Transfer".to_string(), fields: Vec::new() }],
    };
    let other = TypeDefKind::Variant {
        variants: vec![VariantDef { name: "Transferred".to_string(), fields: Vec::new() }],
    };
    assert_ne!(
        get_type_def_hash(&registry, &one, &visited).unwrap(),
        get_type_def_hash(&registry, &other, &visited).unwrap()
    );
}

#[test]
fn cycle_termination() {
    // A composite holding a field whose type id is its own: the digest is
    // finite and stable.
    let mut registry = TypeRegistry::new();
    registry.register(
        1,
        TypeDefinition {
            path: vec!["node".to_string()],
            def: TypeDefKind::Composite {
                fields: vec![named_field("next", 1)],
            },
        },
    );
    let visited = Vec::new();
    let h1 = get_type_hash(&registry, 1, &visited).unwrap();
    let h2 = get_type_hash(&registry, 1, &visited).unwrap();
    assert_eq!(h1, h2);
}

#[test]
fn mutually_recursive_types() {
    let mut registry = TypeRegistry::new();
    registry.register(
        1,
        TypeDefinition {
            path: vec!["even".to_string()],
            def: TypeDefKind::Composite { fields: vec![named_field("odd", 2)] },
        },
    );
    registry.register(
        2,
        TypeDefinition {
            path: vec!["odd".to_string()],
            def: TypeDefKind::Composite { fields: vec![named_field("even", 1)] },
        },
    );
    let visited = Vec::new();
    let h1 = get_type_hash(&registry, 1, &visited).unwrap();
    let h2 = get_type_hash(&registry, 2, &visited).unwrap();
    assert_ne!(h1, h2);
}

#[test]
fn determinism_prewarmed_session() {
    let schema = small_schema(vec![0, 0, 0, 0]);
    let mut fresh = MetadataHasherCache::new();
    let h1 = get_metadata_hash(&schema, &mut fresh).unwrap();
    // The same session, now holding every module digest, gives the same
    // digest again.
    let h2 = get_metadata_hash(&schema, &mut fresh).unwrap();
    assert_eq!(h1, h2);

    // A session pre-warmed with every module digest gives the same digest.
    let mut warmed = MetadataHasherCache::default();
    for pallet in schema.pallets.iter() {
        get_pallet_hash(&schema.types, pallet, &mut warmed).unwrap();
    }
    let h3 = get_metadata_hash(&schema, &mut warmed).unwrap();
    assert_eq!(h1, h3);
}

#[test]
fn extrinsic_sensitivity() {
    let registry = small_registry();
    let base = metadata_hasher::hasher::get_extrinsic_hash(&registry, &small_extrinsic()).unwrap();

    let mut bumped = small_extrinsic();
    bumped.version = 5;
    let with_version =
        metadata_hasher::hasher::get_extrinsic_hash(&registry, &bumped).unwrap();
    assert_ne!(base, with_version);

    let mut renamed = small_extrinsic();
    renamed.signed_extensions[0].identifier = "CheckEra".to_string();
    let with_identifier =
        metadata_hasher::hasher::get_extrinsic_hash(&registry, &renamed).unwrap();
    assert_ne!(base, with_identifier);
}

fn map_entry(hashers: Vec<StorageHasher>) -> ModuleSchema {
    ModuleSchema {
        name: "Tokens".to_string(),
        calls: None,
        event: None,
        constants: Vec::new(),
        error: None,
        storage: Some(StorageSchema {
            prefix: "Tokens".to_string(),
            entries: vec![StorageEntry {
                name: "Accounts".to_string(),
                modifier: StorageModifier::Optional,
                ty: StorageEntryKind::Mapped { hashers, key: 7, value: 7 },
                default: Vec::new(),
            }],
        }),
    }
}

#[test]
fn map_storage_entry_hashers() {
    let registry = small_registry();
    let mut c1 = MetadataHasherCache::new();
    let blake = get_pallet_hash(&registry, &map_entry(vec![StorageHasher::Blake2x128Concat]), &mut c1)
        .unwrap();
    let mut c2 = MetadataHasherCache::new();
    let twox = get_pallet_hash(&registry, &map_entry(vec![StorageHasher::Twox64Concat]), &mut c2)
        .unwrap();
    assert_ne!(blake, twox);
}

#[test]
fn structural_kind_details() {
    let registry = small_registry();
    let visited = Vec::new();
    let arr2 = TypeDefKind::Array { len: 2, element: 7 };
    let arr3 = TypeDefKind::Array { len: 3, element: 7 };
    assert_ne!(
        get_type_def_hash(&registry, &arr2, &visited).unwrap(),
        get_type_def_hash(&registry, &arr3, &visited).unwrap()
    );

    let pair = TypeDefKind::Tuple { elements: vec![7, 7] };
    let single = TypeDefKind::Tuple { elements: vec![7] };
    assert_ne!(
        get_type_def_hash(&registry, &pair, &visited).unwrap(),
        get_type_def_hash(&registry, &single, &visited).unwrap()
    );

    let plain = Field { name: Some("a".to_string()), ty_name: None, ty: 7 };
    let declared = Field { name: Some("a".to_string()), ty_name: Some("u32".to_string()), ty: 7 };
    assert_ne!(
        metadata_hasher::hasher::get_field_hash(&registry, &plain, &visited).unwrap(),
        metadata_hasher::hasher::get_field_hash(&registry, &declared, &visited).unwrap()
    );

    let unit = VariantDef { name: "A".to_string(), fields: Vec::new() };
    let carrying = VariantDef { name: "A".to_string(), fields: vec![plain] };
    assert_ne!(
        metadata_hasher::hasher::get_variant_hash(&registry, &unit, &visited).unwrap(),
        metadata_hasher::hasher::get_variant_hash(&registry, &carrying, &visited).unwrap()
    );
}

#[test]
fn type_digest_matches_hash_primitive() {
    // The digest of the bare u32 type, recomputed against the hash primitive
    // itself: tag 3 and the empty path, then the definition digest of tag 2
    // and the u32 primitive tag.
    let registry = small_registry();
    let visited = Vec::new();
    let got = get_type_hash(&registry, 7, &visited).unwrap();

    let def_digest = sp_core_hashing::sha2_256(&[2u8, 5u8]);
    let mut outer = vec![3u8, 0u8];
    outer.extend_from_slice(&def_digest);
    let expected = sp_core_hashing::sha2_256(&outer);
    assert_eq!(got, expected);
}
