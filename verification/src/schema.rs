//! The data model: type registry, type definitions, modules and the schema
//! root, together with their mathematical views.

use vstd::prelude::*;

verus! {

/// Primitive type kinds, in the order in which they are tagged on the wire.
#[derive(Clone, Copy, PartialEq, Eq, Structural, Debug)]
pub enum Primitive {
    Bool,
    Char,
    Str,
    U8,
    U16,
    U32,
    U64,
    U128,
    U256,
    I8,
    I16,
    I32,
    I64,
    I128,
    I256,
}

/// A field of a composite or variant type.  Its order within the parent is
/// significant for hashing.
pub struct Field {
    pub name: Option<String>,
    pub ty_name: Option<String>,
    pub ty: u32,
}

/// One variant of a variant (enum-like) type.  Order among sibling variants
/// is not significant; order of the fields inside a variant is.
pub struct VariantDef {
    pub name: String,
    pub fields: Vec<Field>,
}

/// The closed set of type definition kinds.
pub enum TypeDefKind {
    Composite { fields: Vec<Field> },
    Variant { variants: Vec<VariantDef> },
    Sequence { element: u32 },
    Array { len: u32, element: u32 },
    Tuple { elements: Vec<u32> },
    Primitive { prim: Primitive },
    Compact { element: u32 },
    BitSequence { order: u32, store: u32 },
}

/// A type definition: a namespaced path plus a kind.
pub struct TypeDefinition {
    pub path: Vec<String>,
    pub def: TypeDefKind,
}

/// Mathematical view of a [`Field`].
pub ghost struct FieldV {
    pub name: Option<Seq<char>>,
    pub ty_name: Option<Seq<char>>,
    pub ty: u32,
}

/// Mathematical view of a [`VariantDef`].
pub ghost struct VariantV {
    pub name: Seq<char>,
    pub fields: Seq<FieldV>,
}

/// Mathematical view of a [`TypeDefKind`].
pub ghost enum TypeDefKindV {
    Composite { fields: Seq<FieldV> },
    Variant { variants: Seq<VariantV> },
    Sequence { element: u32 },
    Array { len: u32, element: u32 },
    Tuple { elements: Seq<u32> },
    Primitive { prim: Primitive },
    Compact { element: u32 },
    BitSequence { order: u32, store: u32 },
}

/// Mathematical view of a [`TypeDefinition`].
pub ghost struct TypeDefinitionV {
    pub path: Seq<Seq<char>>,
    pub def: TypeDefKindV,
}

pub open spec fn opt_string_view(o: Option<String>) -> Option<Seq<char>> {
    match o {
        Some(s) => Some(s@),
        None => None,
    }
}

impl View for Field {
    type V = FieldV;

    open spec fn view(&self) -> FieldV {
        FieldV { name: opt_string_view(self.name), ty_name: opt_string_view(self.ty_name), ty: self.ty }
    }
}

impl View for VariantDef {
    type V = VariantV;

    open spec fn view(&self) -> VariantV {
        VariantV { name: self.name@, fields: self.fields@.map_values(|f: Field| f@) }
    }
}

impl View for TypeDefKind {
    type V = TypeDefKindV;

    open spec fn view(&self) -> TypeDefKindV {
        match self {
            TypeDefKind::Composite { fields } => TypeDefKindV::Composite {
                fields: fields@.map_values(|f: Field| f@),
            },
            TypeDefKind::Variant { variants } => TypeDefKindV::Variant {
                variants: variants@.map_values(|v: VariantDef| v@),
            },
            TypeDefKind::Sequence { element } => TypeDefKindV::Sequence { element: *element },
            TypeDefKind::Array { len, element } => TypeDefKindV::Array { len: *len, element: *element },
            TypeDefKind::Tuple { elements } => TypeDefKindV::Tuple { elements: elements@ },
            TypeDefKind::Primitive { prim } => TypeDefKindV::Primitive { prim: *prim },
            TypeDefKind::Compact { element } => TypeDefKindV::Compact { element: *element },
            TypeDefKind::BitSequence { order, store } => TypeDefKindV::BitSequence {
                order: *order,
                store: *store,
            },
        }
    }
}

impl View for TypeDefinition {
    type V = TypeDefinitionV;

    open spec fn view(&self) -> TypeDefinitionV {
        TypeDefinitionV { path: self.path@.map_values(|s: String| s@), def: self.def@ }
    }
}

/// An immutable store of type definitions keyed by numeric id.  Ids from one
/// registry must never be looked up in another.
pub struct TypeRegistry {
    pub entries: Vec<(u32, TypeDefinition)>,
}

/// Lookup of an id in the registry view: the first entry with that id wins.
pub open spec fn s_resolve(reg: Seq<(u32, TypeDefinitionV)>, id: u32) -> Option<TypeDefinitionV>
    decreases reg.len(),
{
    if reg.len() == 0 {
        None
    } else if reg[0].0 == id {
        Some(reg[0].1)
    } else {
        s_resolve(reg.drop_first(), id)
    }
}

impl View for TypeRegistry {
    type V = Seq<(u32, TypeDefinitionV)>;

    open spec fn view(&self) -> Seq<(u32, TypeDefinitionV)> {
        self.entries@.map_values(|p: (u32, TypeDefinition)| (p.0, p.1@))
    }
}

impl TypeRegistry {
    /// Creates an empty registry.
    pub fn new() -> (r: TypeRegistry)
        ensures
            r@ == Seq::<(u32, TypeDefinitionV)>::empty(),
    {
        let r = TypeRegistry { entries: Vec::new() };
        proof {
            assert(r@ =~= Seq::<(u32, TypeDefinitionV)>::empty());
        }
        r
    }

    /// Appends a definition under the given id.  An id registered twice keeps
    /// its first definition.
    pub fn register(&mut self, id: u32, ty: TypeDefinition)
        ensures
            final(self)@ == old(self)@.push((id, ty@)),
    {
        let ghost pre = self@;
        self.entries.push((id, ty));
        proof {
            assert(final(self)@ =~= pre.push((id, ty@)));
        }
    }

    /// Looks a type definition up by id; `None` exactly when the id is absent.
    pub fn resolve(&self, id: u32) -> (r: Option<&TypeDefinition>)
        ensures
            match r {
                Some(t) => s_resolve(self@, id) == Some(t@),
                None => s_resolve(self@, id) is None,
            },
    {
        let n = self.entries.len();
        let mut i: usize = 0;
        proof {
            assert(self@.skip(0) =~= self@);
        }
        while i < n
            invariant
                n == self.entries.len(),
                i <= n,
                s_resolve(self@, id) == s_resolve(self@.skip(i as int), id),
            decreases n - i,
        {
            proof {
                assert(self@.skip(i as int).len() > 0);
                assert(self@.skip(i as int)[0] == self@[i as int]);
                assert(self@.skip(i as int).drop_first() =~= self@.skip(i as int + 1));
            }
            let e = &self.entries[i];
            if e.0 == id {
                return Some(&e.1);
            }
            i = i + 1;
        }
        proof {
            assert(self@.skip(n as int) =~= Seq::<(u32, TypeDefinitionV)>::empty());
        }
        None
    }
}

/// The set of ids a registry view holds.
pub open spec fn reg_ids(reg: Seq<(u32, TypeDefinitionV)>) -> Set<u32> {
    reg.map_values(|p: (u32, TypeDefinitionV)| p.0).to_set()
}

/// How many registered ids are not yet on the current traversal path: the
/// measure that cuts every cyclic walk of the type graph.
pub open spec fn unvisited_count(reg: Seq<(u32, TypeDefinitionV)>, visited: Set<u32>) -> nat {
    reg_ids(reg).difference(visited).len()
}

/// A resolvable id is among the registry's ids.
pub proof fn lemma_resolve_in_ids(reg: Seq<(u32, TypeDefinitionV)>, id: u32)
    requires
        s_resolve(reg, id) is Some,
    ensures
        reg_ids(reg).contains(id),
    decreases reg.len(),
{
    let mapped = reg.map_values(|p: (u32, TypeDefinitionV)| p.0);
    if reg.len() == 0 {
    } else if reg[0].0 == id {
        assert(mapped[0] == id);
        assert(mapped.contains(id));
    } else {
        lemma_resolve_in_ids(reg.drop_first(), id);
        let sub = reg.drop_first().map_values(|p: (u32, TypeDefinitionV)| p.0);
        assert(sub.to_set().contains(id));
        let j = choose|j: int| 0 <= j < sub.len() && sub[j] == id;
        assert(mapped[j + 1] == id);
        assert(mapped.contains(id));
    }
}

/// Stepping onto a fresh registered id strictly shrinks the measure.
pub proof fn lemma_unvisited_decreases(reg: Seq<(u32, TypeDefinitionV)>, visited: Set<u32>, id: u32)
    requires
        reg_ids(reg).contains(id),
        !visited.contains(id),
    ensures
        unvisited_count(reg, visited.insert(id)) < unvisited_count(reg, visited),
{
    broadcast use vstd::seq_lib::seq_to_set_is_finite;

    let a = reg_ids(reg);
    assert(a.finite());
    let d1 = a.difference(visited);
    let d2 = a.difference(visited.insert(id));
    assert(d1.finite());
    assert(d2.finite());
    assert(d2.insert(id).subset_of(d1));
    vstd::set_lib::lemma_len_subset(d2.insert(id), d1);
    assert(!d2.contains(id));
    assert(d2.insert(id).len() == d2.len() + 1);
}

/// Why a hashing call failed.
#[derive(Clone, Copy, PartialEq, Eq, Structural, Debug)]
pub enum HashError {
    /// A referenced type id is absent from the registry that came with the
    /// schema: a structural inconsistency, never silently substituted.
    UnknownTypeId(u32),
    /// The decoded metadata is not of the schema version this algorithm
    /// understands; raised at the decoding boundary, before hashing begins.
    UnsupportedSchemaVersion,
}

/// A signed extension of the transaction envelope.
pub struct SignedExtension {
    pub identifier: String,
    pub ty: u32,
    pub additional_signed: u32,
}

/// The outer transaction envelope description.
pub struct ExtrinsicSchema {
    pub ty: u32,
    pub version: u8,
    pub signed_extensions: Vec<SignedExtension>,
}

/// A module constant: name, raw encoded default value, and its type.
pub struct Constant {
    pub name: String,
    pub value: Vec<u8>,
    pub ty: u32,
}

/// Whether a storage entry always holds a value.
#[derive(Clone, Copy, PartialEq, Eq, Structural, Debug)]
pub enum StorageModifier {
    Optional,
    Required,
}

/// The hashers a storage map may apply to its keys, in wire-tag order.
#[derive(Clone, Copy, PartialEq, Eq, Structural, Debug)]
pub enum StorageHasher {
    Blake2x128,
    Blake2x256,
    Blake2x128Concat,
    Twox128,
    Twox256,
    Twox64Concat,
    Identity,
}

/// The shape of one storage entry: a plain value or a keyed map.
pub enum StorageEntryKind {
    Plain { ty: u32 },
    Mapped { hashers: Vec<StorageHasher>, key: u32, value: u32 },
}

/// One storage entry of a module.
pub struct StorageEntry {
    pub name: String,
    pub modifier: StorageModifier,
    pub ty: StorageEntryKind,
    pub default: Vec<u8>,
}

/// A module's storage section: a prefix and its entries, in declared order.
pub struct StorageSchema {
    pub prefix: String,
    pub entries: Vec<StorageEntry>,
}

/// A functional module ("pallet") of the runtime.
pub struct ModuleSchema {
    pub name: String,
    pub calls: Option<u32>,
    pub event: Option<u32>,
    pub constants: Vec<Constant>,
    pub error: Option<u32>,
    pub storage: Option<StorageSchema>,
}

/// The whole decoded schema: registry, modules, envelope and root call type.
pub struct RootSchema {
    pub types: TypeRegistry,
    pub pallets: Vec<ModuleSchema>,
    pub extrinsic: ExtrinsicSchema,
    pub ty: u32,
}

/// Mathematical view of a [`SignedExtension`].
pub ghost struct SignedExtensionV {
    pub identifier: Seq<char>,
    pub ty: u32,
    pub additional_signed: u32,
}

/// Mathematical view of an [`ExtrinsicSchema`].
pub ghost struct ExtrinsicV {
    pub ty: u32,
    pub version: u8,
    pub signed_extensions: Seq<SignedExtensionV>,
}

/// Mathematical view of a [`Constant`].
pub ghost struct ConstantV {
    pub name: Seq<char>,
    pub value: Seq<u8>,
    pub ty: u32,
}

/// Mathematical view of a [`StorageEntryKind`].
pub ghost enum StorageEntryKindV {
    Plain { ty: u32 },
    Mapped { hashers: Seq<StorageHasher>, key: u32, value: u32 },
}

/// Mathematical view of a [`StorageEntry`].
pub ghost struct StorageEntryV {
    pub name: Seq<char>,
    pub modifier: StorageModifier,
    pub ty: StorageEntryKindV,
    pub default: Seq<u8>,
}

/// Mathematical view of a [`StorageSchema`].
pub ghost struct StorageSchemaV {
    pub prefix: Seq<char>,
    pub entries: Seq<StorageEntryV>,
}

/// Mathematical view of a [`ModuleSchema`].
pub ghost struct ModuleSchemaV {
    pub name: Seq<char>,
    pub calls: Option<u32>,
    pub event: Option<u32>,
    pub constants: Seq<ConstantV>,
    pub error: Option<u32>,
    pub storage: Option<StorageSchemaV>,
}

/// Mathematical view of a [`RootSchema`].
pub ghost struct RootSchemaV {
    pub types: Seq<(u32, TypeDefinitionV)>,
    pub pallets: Seq<ModuleSchemaV>,
    pub extrinsic: ExtrinsicV,
    pub ty: u32,
}

impl View for SignedExtension {
    type V = SignedExtensionV;

    open spec fn view(&self) -> SignedExtensionV {
        SignedExtensionV {
            identifier: self.identifier@,
            ty: self.ty,
            additional_signed: self.additional_signed,
        }
    }
}

impl View for ExtrinsicSchema {
    type V = ExtrinsicV;

    open spec fn view(&self) -> ExtrinsicV {
        ExtrinsicV {
            ty: self.ty,
            version: self.version,
            signed_extensions: self.signed_extensions@.map_values(|e: SignedExtension| e@),
        }
    }
}

impl View for Constant {
    type V = ConstantV;

    open spec fn view(&self) -> ConstantV {
        ConstantV { name: self.name@, value: self.value@, ty: self.ty }
    }
}

impl View for StorageEntryKind {
    type V = StorageEntryKindV;

    open spec fn view(&self) -> StorageEntryKindV {
        match self {
            StorageEntryKind::Plain { ty } => StorageEntryKindV::Plain { ty: *ty },
            StorageEntryKind::Mapped { hashers, key, value } => StorageEntryKindV::Mapped {
                hashers: hashers@,
                key: *key,
                value: *value,
            },
        }
    }
}

impl View for StorageEntry {
    type V = StorageEntryV;

    open spec fn view(&self) -> StorageEntryV {
        StorageEntryV {
            name: self.name@,
            modifier: self.modifier,
            ty: self.ty@,
            default: self.default@,
        }
    }
}

impl View for StorageSchema {
    type V = StorageSchemaV;

    open spec fn view(&self) -> StorageSchemaV {
        StorageSchemaV {
            prefix: self.prefix@,
            entries: self.entries@.map_values(|e: StorageEntry| e@),
        }
    }
}

impl View for ModuleSchema {
    type V = ModuleSchemaV;

    open spec fn view(&self) -> ModuleSchemaV {
        ModuleSchemaV {
            name: self.name@,
            calls: self.calls,
            event: self.event,
            constants: self.constants@.map_values(|c: Constant| c@),
            error: self.error,
            storage: match self.storage {
                Some(ref s) => Some(s@),
                None => None,
            },
        }
    }
}

impl View for RootSchema {
    type V = RootSchemaV;

    open spec fn view(&self) -> RootSchemaV {
        RootSchemaV {
            types: self.types@,
            pallets: self.pallets@.map_values(|m: ModuleSchema| m@),
            extrinsic: self.extrinsic@,
            ty: self.ty,
        }
    }
}

} // verus!
