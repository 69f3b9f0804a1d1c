//! The data model of type definitions as the generator sees them.
//!
//! A definition is a record or a tagged union whose fields carry
//! annotations. Exactly one kind of annotation is interpreted here: the
//! flattening annotation with its ordered path of keys. Host-framework
//! serialization customizations are carried as [`Customization`] values and
//! preserved verbatim; everything else is opaque text that the generator
//! never touches.
//!
//! Each executable type has a mathematical mirror (the `...V` types, built
//! from `Seq` and friends) reached through `View`/`DeepView`; all contracts
//! are stated over the mirrors.

use vstd::prelude::*;

verus! {

/// Why a generation pass rejected a type definition. Generation is atomic:
/// any of these aborts the whole type, nothing is emitted.
#[derive(Clone, Copy, Debug, PartialEq, Eq, Structural)]
pub enum GenError {
    /// More than one flattening annotation on a single field.
    DuplicateAnnotation,
    /// A flattening annotation whose path holds no keys.
    EmptyPath,
    /// A flattening annotation on a positional (tuple) field.
    UnnamedFieldNotSupported,
    /// The annotated item is neither a record nor a tagged union.
    UnsupportedShape,
}

/// A serialization customization that already sat on a field before
/// flattening: a "leaf customization". The generator relocates it onto the
/// innermost link of the generated chain, so that it affects only how the
/// ultimate value is encoded, never the intermediate nesting levels.
#[derive(Clone, Debug, PartialEq, Eq)]
pub enum Customization {
    /// Rename the serialized key of the value it is attached to.
    Rename(String),
    /// Omit the key entirely when the named host predicate holds of the
    /// value; with `skip if default`, when the value is its type's default.
    SkipIf(String),
    /// Any other host-framework customization, carried as opaque text.
    Opaque(String),
}

/// Where the generated encode/decode adapter pair of one flattened field
/// lives: in the namespace of the annotated type, under the variant's scope
/// for a union, labelled by the field's own name.
#[derive(Clone, Debug, PartialEq, Eq)]
pub struct AdapterRef {
    pub owner: String,
    pub variant: Option<String>,
    pub field: String,
}

/// One annotation attached to a field.
#[derive(Clone, Debug, PartialEq, Eq)]
pub enum FieldAttr {
    /// The flattening annotation: the ordered keys under which the field's
    /// value appears in serialized form, outermost first.
    FlatPath(Vec<String>),
    /// A host-framework serialization customization.
    Custom(Customization),
    /// Any other annotation; never touched by the generator.
    Other(String),
    /// Put in place of a consumed flattening annotation: serialize the field
    /// under `key` and delegate its encode/decode to the pair at `adapter`.
    Redirect { key: String, adapter: AdapterRef },
}

/// A named field of a record or of a union variant.
#[derive(Clone, Debug, PartialEq, Eq)]
pub struct NamedField {
    pub name: String,
    pub attrs: Vec<FieldAttr>,
}

/// A positional (tuple) field: it has annotations but no name, and can
/// therefore not be flattened.
#[derive(Clone, Debug, PartialEq, Eq)]
pub struct PositionalField {
    pub attrs: Vec<FieldAttr>,
}

/// The fields of a record or of a union variant.
#[derive(Clone, Debug, PartialEq, Eq)]
pub enum FieldSet {
    /// No fields at all (a unit-like shape).
    Unit,
    /// Named fields, in declaration order.
    Named(Vec<NamedField>),
    /// Positional fields, in declaration order.
    Positional(Vec<PositionalField>),
}

/// A record (struct) definition.
#[derive(Clone, Debug, PartialEq, Eq)]
pub struct RecordDef {
    pub name: String,
    pub fields: FieldSet,
}

/// One variant of a tagged union.
#[derive(Clone, Debug, PartialEq, Eq)]
pub struct Variant {
    pub name: String,
    pub fields: FieldSet,
}

/// A tagged-union (enum) definition.
#[derive(Clone, Debug, PartialEq, Eq)]
pub struct UnionDef {
    pub name: String,
    pub variants: Vec<Variant>,
}

/// A type definition handed to the generator.
#[derive(Clone, Debug, PartialEq, Eq)]
pub enum ItemDef {
    Record(RecordDef),
    Union(UnionDef),
    /// Any other shape; the generator rejects it.
    Unsupported,
}

/// Everything the generator emits for one flattened field: a chain of
/// single-field wrapper links, one per key of `rest_keys`, and the adapter
/// pair that encodes through the chain. The field itself is rewritten to
/// serialize under `first_key`.
#[derive(Clone, Debug, PartialEq, Eq)]
pub struct ChainSpec {
    /// The original field identifier; labels the adapter scope.
    pub field: String,
    /// The first path key; becomes the rewritten field's serialized key.
    pub first_key: String,
    /// The remaining path keys, outermost first; one wrapper link each.
    pub rest_keys: Vec<String>,
    /// The customizations relocated onto the innermost link's field.
    pub leaf_customizations: Vec<Customization>,
    /// Where the adapter pair lives.
    pub adapter: AdapterRef,
}

/// The chains generated for one union variant, scoped under the variant's
/// own name so that equal paths in different variants never collide.
#[derive(Clone, Debug, PartialEq, Eq)]
pub struct VariantScope {
    pub variant: String,
    pub chains: Vec<ChainSpec>,
}

/// The contents of a generated namespace.
#[derive(Clone, Debug, PartialEq, Eq)]
pub enum NamespaceBody {
    /// For a record: the chains of its flattened fields, in field order.
    Record(Vec<ChainSpec>),
    /// For a union: one scope per variant that has a flattened field.
    Union(Vec<VariantScope>),
}

/// The generated namespace of one annotated type: an implementation-private
/// scope, named after the type, holding every wrapper chain it needed.
#[derive(Clone, Debug, PartialEq, Eq)]
pub struct Namespace {
    pub owner: String,
    pub body: NamespaceBody,
}

/// The result of a successful generation pass: the same definition with its
/// flattened fields rewritten, plus the generated namespace — or no
/// namespace at all when nothing was flattened.
#[derive(Clone, Debug, PartialEq, Eq)]
pub struct Expansion {
    pub item: ItemDef,
    pub namespace: Option<Namespace>,
}

// ------------------------------------------------------------------
// Mathematical mirrors.
// ------------------------------------------------------------------

pub enum CustomizationV {
    Rename(Seq<char>),
    SkipIf(Seq<char>),
    Opaque(Seq<char>),
}

pub struct AdapterRefV {
    pub owner: Seq<char>,
    pub variant: Option<Seq<char>>,
    pub field: Seq<char>,
}

pub enum FieldAttrV {
    FlatPath(Seq<Seq<char>>),
    Custom(CustomizationV),
    Other(Seq<char>),
    Redirect { key: Seq<char>, adapter: AdapterRefV },
}

pub struct NamedFieldV {
    pub name: Seq<char>,
    pub attrs: Seq<FieldAttrV>,
}

pub struct PositionalFieldV {
    pub attrs: Seq<FieldAttrV>,
}

pub enum FieldSetV {
    Unit,
    Named(Seq<NamedFieldV>),
    Positional(Seq<PositionalFieldV>),
}

pub struct RecordDefV {
    pub name: Seq<char>,
    pub fields: FieldSetV,
}

pub struct VariantDefV {
    pub name: Seq<char>,
    pub fields: FieldSetV,
}

pub struct UnionDefV {
    pub name: Seq<char>,
    pub variants: Seq<VariantDefV>,
}

pub enum ItemDefV {
    Record(RecordDefV),
    Union(UnionDefV),
    Unsupported,
}

pub struct ChainSpecV {
    pub field: Seq<char>,
    pub first_key: Seq<char>,
    pub rest_keys: Seq<Seq<char>>,
    pub leaf_customizations: Seq<CustomizationV>,
    pub adapter: AdapterRefV,
}

pub struct VariantScopeV {
    pub variant: Seq<char>,
    pub chains: Seq<ChainSpecV>,
}

pub enum NamespaceBodyV {
    Record(Seq<ChainSpecV>),
    Union(Seq<VariantScopeV>),
}

pub struct NamespaceV {
    pub owner: Seq<char>,
    pub body: NamespaceBodyV,
}

pub struct ExpansionV {
    pub item: ItemDefV,
    pub namespace: Option<NamespaceV>,
}

// ------------------------------------------------------------------
// Views.
// ------------------------------------------------------------------

impl View for Customization {
    type V = CustomizationV;

    open spec fn view(&self) -> CustomizationV {
        match self {
            Customization::Rename(s) => CustomizationV::Rename(s@),
            Customization::SkipIf(p) => CustomizationV::SkipIf(p@),
            Customization::Opaque(s) => CustomizationV::Opaque(s@),
        }
    }
}

impl DeepView for Customization {
    type V = CustomizationV;

    open spec fn deep_view(&self) -> CustomizationV {
        self.view()
    }
}

impl View for AdapterRef {
    type V = AdapterRefV;

    open spec fn view(&self) -> AdapterRefV {
        AdapterRefV {
            owner: self.owner@,
            variant: match self.variant {
                Some(ref v) => Some(v@),
                None => None,
            },
            field: self.field@,
        }
    }
}

impl DeepView for AdapterRef {
    type V = AdapterRefV;

    open spec fn deep_view(&self) -> AdapterRefV {
        self.view()
    }
}

impl View for FieldAttr {
    type V = FieldAttrV;

    open spec fn view(&self) -> FieldAttrV {
        match self {
            FieldAttr::FlatPath(keys) => FieldAttrV::FlatPath(keys.deep_view()),
            FieldAttr::Custom(c) => FieldAttrV::Custom(c@),
            FieldAttr::Other(s) => FieldAttrV::Other(s@),
            FieldAttr::Redirect { key, adapter } => FieldAttrV::Redirect {
                key: key@,
                adapter: adapter@,
            },
        }
    }
}

impl DeepView for FieldAttr {
    type V = FieldAttrV;

    open spec fn deep_view(&self) -> FieldAttrV {
        self.view()
    }
}

impl View for NamedField {
    type V = NamedFieldV;

    open spec fn view(&self) -> NamedFieldV {
        NamedFieldV { name: self.name@, attrs: self.attrs.deep_view() }
    }
}

impl DeepView for NamedField {
    type V = NamedFieldV;

    open spec fn deep_view(&self) -> NamedFieldV {
        self.view()
    }
}

impl View for PositionalField {
    type V = PositionalFieldV;

    open spec fn view(&self) -> PositionalFieldV {
        PositionalFieldV { attrs: self.attrs.deep_view() }
    }
}

impl DeepView for PositionalField {
    type V = PositionalFieldV;

    open spec fn deep_view(&self) -> PositionalFieldV {
        self.view()
    }
}

impl View for FieldSet {
    type V = FieldSetV;

    open spec fn view(&self) -> FieldSetV {
        match self {
            FieldSet::Unit => FieldSetV::Unit,
            FieldSet::Named(fields) => FieldSetV::Named(fields.deep_view()),
            FieldSet::Positional(fields) => FieldSetV::Positional(fields.deep_view()),
        }
    }
}

impl DeepView for FieldSet {
    type V = FieldSetV;

    open spec fn deep_view(&self) -> FieldSetV {
        self.view()
    }
}

impl View for RecordDef {
    type V = RecordDefV;

    open spec fn view(&self) -> RecordDefV {
        RecordDefV { name: self.name@, fields: self.fields@ }
    }
}

impl View for Variant {
    type V = VariantDefV;

    open spec fn view(&self) -> VariantDefV {
        VariantDefV { name: self.name@, fields: self.fields@ }
    }
}

impl DeepView for Variant {
    type V = VariantDefV;

    open spec fn deep_view(&self) -> VariantDefV {
        self.view()
    }
}

impl View for UnionDef {
    type V = UnionDefV;

    open spec fn view(&self) -> UnionDefV {
        UnionDefV { name: self.name@, variants: self.variants.deep_view() }
    }
}

impl View for ItemDef {
    type V = ItemDefV;

    open spec fn view(&self) -> ItemDefV {
        match self {
            ItemDef::Record(def) => ItemDefV::Record(def@),
            ItemDef::Union(def) => ItemDefV::Union(def@),
            ItemDef::Unsupported => ItemDefV::Unsupported,
        }
    }
}

impl View for ChainSpec {
    type V = ChainSpecV;

    open spec fn view(&self) -> ChainSpecV {
        ChainSpecV {
            field: self.field@,
            first_key: self.first_key@,
            rest_keys: self.rest_keys.deep_view(),
            leaf_customizations: self.leaf_customizations.deep_view(),
            adapter: self.adapter@,
        }
    }
}

impl DeepView for ChainSpec {
    type V = ChainSpecV;

    open spec fn deep_view(&self) -> ChainSpecV {
        self.view()
    }
}

impl View for VariantScope {
    type V = VariantScopeV;

    open spec fn view(&self) -> VariantScopeV {
        VariantScopeV { variant: self.variant@, chains: self.chains.deep_view() }
    }
}

impl DeepView for VariantScope {
    type V = VariantScopeV;

    open spec fn deep_view(&self) -> VariantScopeV {
        self.view()
    }
}

impl View for NamespaceBody {
    type V = NamespaceBodyV;

    open spec fn view(&self) -> NamespaceBodyV {
        match self {
            NamespaceBody::Record(chains) => NamespaceBodyV::Record(chains.deep_view()),
            NamespaceBody::Union(scopes) => NamespaceBodyV::Union(scopes.deep_view()),
        }
    }
}

impl View for Namespace {
    type V = NamespaceV;

    open spec fn view(&self) -> NamespaceV {
        NamespaceV { owner: self.owner@, body: self.body@ }
    }
}

impl View for Expansion {
    type V = ExpansionV;

    open spec fn view(&self) -> ExpansionV {
        ExpansionV {
            item: self.item@,
            namespace: match self.namespace {
                Some(ref ns) => Some(ns@),
                None => None,
            },
        }
    }
}

} // verus!
