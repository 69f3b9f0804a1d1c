//! General laws of the generation pass.
//!
//! Each proof function here states one guarantee of [`crate::generate`] for
//! every input of its kind: which definitions are rejected, with which
//! error, that an unannotated definition passes through unchanged, and
//! that the scopes generated for a union's variants never collide.

use crate::extract::spec_extract;
use crate::extract::spec_split_flat;
use crate::extract::ExtractionV;
use crate::generate::lemma_flatten_fields_err;
use crate::generate::lemma_flatten_variants_err;
use crate::generate::spec_attrs_have_flat;
use crate::generate::spec_flat_path;
use crate::generate::spec_flatten_fields;
use crate::generate::spec_flatten_union_variants;
use crate::generate::spec_flatten_variant;
use crate::generate::spec_positional_has_flat;
use crate::generate::spec_rewrite_field;
use crate::model::ChainSpecV;
use crate::model::ExpansionV;
use crate::model::FieldSetV;
use crate::model::GenError;
use crate::model::ItemDefV;
use crate::model::NamedFieldV;
use crate::model::RecordDefV;
use crate::model::UnionDefV;
use crate::model::VariantDefV;
use crate::model::VariantScopeV;
use vstd::prelude::*;

verus! {

/// How many flattening annotations an annotation list carries.
pub open spec fn spec_flat_count(attrs: Seq<crate::model::FieldAttrV>) -> int {
    spec_split_flat(attrs).0.len() as int
}

/// Whether a whole field set carries a flattening annotation anywhere.
pub open spec fn spec_fieldset_has_flat(fields: FieldSetV) -> bool {
    match fields {
        FieldSetV::Unit => false,
        FieldSetV::Named(fs) => exists|i: int|
            0 <= i < fs.len() && spec_attrs_have_flat(#[trigger] fs[i].attrs),
        FieldSetV::Positional(ps) => spec_positional_has_flat(ps),
    }
}

/// Whether a definition carries a flattening annotation anywhere.
pub open spec fn spec_item_has_flat(item: ItemDefV) -> bool {
    match item {
        ItemDefV::Record(def) => spec_fieldset_has_flat(def.fields),
        ItemDefV::Union(def) => exists|i: int|
            0 <= i < def.variants.len() && spec_fieldset_has_flat(
                #[trigger] def.variants[i].fields,
            ),
        ItemDefV::Unsupported => false,
    }
}

/// Extraction from a list without flattening annotations touches nothing:
/// no path, no customizations removed, every annotation kept in place.
pub proof fn lemma_extract_none(attrs: Seq<crate::model::FieldAttrV>)
    requires
        !spec_attrs_have_flat(attrs),
    ensures
        spec_extract(attrs) == Ok::<ExtractionV, GenError>(
            ExtractionV {
                path: None,
                customizations: Seq::<crate::model::CustomizationV>::empty(),
                kept: attrs,
            },
        ),
{
    assert(forall|i: int| 0 <= i < attrs.len() ==> !(#[trigger] attrs[i] is FlatPath));
    crate::extract::lemma_split_flat_none(attrs);
}

/// A field without a flattening annotation is rewritten to itself.
pub proof fn lemma_rewrite_field_none(
    owner: Seq<char>,
    variant: Option<Seq<char>>,
    field: NamedFieldV,
)
    requires
        !spec_attrs_have_flat(field.attrs),
    ensures
        spec_rewrite_field(owner, variant, field) == Ok::<
            (NamedFieldV, Option<ChainSpecV>),
            GenError,
        >((field, None::<ChainSpecV>)),
{
    lemma_extract_none(field.attrs);
}

/// A field list without flattening annotations is rewritten to itself,
/// with no chains.
pub proof fn lemma_flatten_fields_none(
    owner: Seq<char>,
    variant: Option<Seq<char>>,
    fields: Seq<NamedFieldV>,
)
    requires
        forall|i: int| 0 <= i < fields.len() ==> !spec_attrs_have_flat(#[trigger] fields[i].attrs),
    ensures
        spec_flatten_fields(owner, variant, fields) == Ok::<
            (Seq<NamedFieldV>, Seq<ChainSpecV>),
            GenError,
        >((fields, Seq::<ChainSpecV>::empty())),
    decreases fields.len(),
{
    if fields.len() > 0 {
        assert forall|i: int|
            0 <= i < fields.drop_last().len() implies !spec_attrs_have_flat(
            #[trigger] fields.drop_last()[i].attrs) by {
            assert(fields.drop_last()[i] == fields[i]);
        }
        lemma_flatten_fields_none(owner, variant, fields.drop_last());
        assert(fields.last() == fields[fields.len() - 1]);
        lemma_rewrite_field_none(owner, variant, fields.last());
        assert(fields.drop_last().push(fields.last()) =~= fields);
    } else {
        assert(fields =~= Seq::<NamedFieldV>::empty());
    }
}

/// Variants without flattening annotations are rewritten to themselves,
/// with no scopes.
proof fn lemma_flatten_variants_none(owner: Seq<char>, variants: Seq<VariantDefV>)
    requires
        forall|i: int|
            0 <= i < variants.len() ==> !spec_fieldset_has_flat(#[trigger] variants[i].fields),
    ensures
        spec_flatten_union_variants(owner, variants) == Ok::<
            (Seq<VariantDefV>, Seq<VariantScopeV>),
            GenError,
        >((variants, Seq::<VariantScopeV>::empty())),
    decreases variants.len(),
{
    if variants.len() > 0 {
        assert forall|i: int|
            0 <= i < variants.drop_last().len() implies !spec_fieldset_has_flat(
            #[trigger] variants.drop_last()[i].fields) by {
            assert(variants.drop_last()[i] == variants[i]);
        }
        lemma_flatten_variants_none(owner, variants.drop_last());
        let last = variants.last();
        assert(last == variants[variants.len() - 1]);
        assert(!spec_fieldset_has_flat(last.fields));
        match last.fields {
            FieldSetV::Unit => {},
            FieldSetV::Positional(_) => {},
            FieldSetV::Named(fs) => {
                lemma_flatten_fields_none(owner, Some(last.name), fs);
                assert(VariantDefV { name: last.name, fields: FieldSetV::Named(fs) } == last);
            },
        }
        assert(variants.drop_last().push(last) =~= variants);
    } else {
        assert(variants =~= Seq::<VariantDefV>::empty());
    }
}

/// A definition without any flattening annotation passes through the whole
/// pass unchanged: the same definition comes back and no namespace is
/// generated.
pub proof fn lemma_unannotated_identity(item: ItemDefV)
    requires
        !spec_item_has_flat(item),
    ensures
        item is Record || item is Union ==> spec_flat_path(item) == Ok::<ExpansionV, GenError>(
            ExpansionV { item, namespace: None::<crate::model::NamespaceV> },
        ),
{
    match item {
        ItemDefV::Record(def) => {
            match def.fields {
                FieldSetV::Unit => {},
                FieldSetV::Positional(_) => {},
                FieldSetV::Named(fs) => {
                    lemma_flatten_fields_none(def.name, None, fs);
                    assert(RecordDefV { name: def.name, fields: FieldSetV::Named(fs) } == def);
                },
            }
        },
        ItemDefV::Union(def) => {
            lemma_flatten_variants_none(def.name, def.variants);
            assert(UnionDefV { name: def.name, variants: def.variants } == def);
        },
        ItemDefV::Unsupported => {},
    }
}

/// A single field's annotation list is acceptable: at most one flattening
/// annotation, and when there is one, its path holds at least one key.
pub open spec fn spec_attrs_ok(attrs: Seq<crate::model::FieldAttrV>) -> bool {
    &&& spec_flat_count(attrs) <= 1
    &&& spec_flat_count(attrs) == 1 ==> spec_split_flat(attrs).0[0].len() >= 1
}

/// A whole field set is acceptable: every named field's annotations are,
/// and no positional field carries a flattening annotation.
pub open spec fn spec_fieldset_ok(fields: FieldSetV) -> bool {
    match fields {
        FieldSetV::Unit => true,
        FieldSetV::Named(fs) => forall|i: int|
            0 <= i < fs.len() ==> spec_attrs_ok(#[trigger] fs[i].attrs),
        FieldSetV::Positional(ps) => !spec_positional_has_flat(ps),
    }
}

/// A definition is acceptable: it is a record or a union, and every field
/// set in it is.
pub open spec fn spec_item_ok(item: ItemDefV) -> bool {
    match item {
        ItemDefV::Record(def) => spec_fieldset_ok(def.fields),
        ItemDefV::Union(def) => forall|i: int|
            0 <= i < def.variants.len() ==> spec_fieldset_ok(#[trigger] def.variants[i].fields),
        ItemDefV::Unsupported => false,
    }
}

/// Rewriting one field succeeds exactly when its annotations are
/// acceptable.
proof fn lemma_rewrite_field_ok_iff(
    owner: Seq<char>,
    variant: Option<Seq<char>>,
    field: NamedFieldV,
)
    ensures
        spec_rewrite_field(owner, variant, field) is Ok <==> spec_attrs_ok(field.attrs),
{
}

/// Rewriting a field list succeeds exactly when every field's annotations
/// are acceptable.
proof fn lemma_flatten_fields_ok_iff(
    owner: Seq<char>,
    variant: Option<Seq<char>>,
    fields: Seq<NamedFieldV>,
)
    ensures
        spec_flatten_fields(owner, variant, fields) is Ok <==> forall|i: int|
            0 <= i < fields.len() ==> spec_attrs_ok(#[trigger] fields[i].attrs),
    decreases fields.len(),
{
    if fields.len() > 0 {
        let prefix = fields.drop_last();
        lemma_flatten_fields_ok_iff(owner, variant, prefix);
        lemma_rewrite_field_ok_iff(owner, variant, fields.last());
        assert(fields.last() == fields[fields.len() - 1]);
        if spec_flatten_fields(owner, variant, fields) is Ok {
            assert forall|i: int| 0 <= i < fields.len() implies spec_attrs_ok(
                #[trigger] fields[i].attrs,
            ) by {
                if i < fields.len() - 1 {
                    assert(prefix[i] == fields[i]);
                    assert(spec_attrs_ok(prefix[i].attrs));
                }
            }
        }
        if forall|i: int| 0 <= i < fields.len() ==> spec_attrs_ok(#[trigger] fields[i].attrs) {
            assert forall|i: int| 0 <= i < prefix.len() implies spec_attrs_ok(
                #[trigger] prefix[i].attrs,
            ) by {
                assert(prefix[i] == fields[i]);
            }
            assert(spec_flatten_fields(owner, variant, prefix) is Ok);
            assert(spec_rewrite_field(owner, variant, fields.last()) is Ok);
        }
    }
}

/// Rewriting one variant succeeds exactly when its field set is acceptable.
proof fn lemma_flatten_variant_ok_iff(owner: Seq<char>, v: VariantDefV)
    ensures
        spec_flatten_variant(owner, v) is Ok <==> spec_fieldset_ok(v.fields),
{
    match v.fields {
        FieldSetV::Named(fs) => {
            lemma_flatten_fields_ok_iff(owner, Some(v.name), fs);
        },
        _ => {},
    }
}

/// Rewriting a variant list succeeds exactly when every variant's field
/// set is acceptable.
proof fn lemma_flatten_variants_ok_iff(owner: Seq<char>, variants: Seq<VariantDefV>)
    ensures
        spec_flatten_union_variants(owner, variants) is Ok <==> forall|i: int|
            0 <= i < variants.len() ==> spec_fieldset_ok(#[trigger] variants[i].fields),
    decreases variants.len(),
{
    if variants.len() > 0 {
        let prefix = variants.drop_last();
        lemma_flatten_variants_ok_iff(owner, prefix);
        lemma_flatten_variant_ok_iff(owner, variants.last());
        assert(variants.last() == variants[variants.len() - 1]);
        if spec_flatten_union_variants(owner, variants) is Ok {
            assert forall|i: int| 0 <= i < variants.len() implies spec_fieldset_ok(
                #[trigger] variants[i].fields,
            ) by {
                if i < variants.len() - 1 {
                    assert(prefix[i] == variants[i]);
                    assert(spec_fieldset_ok(prefix[i].fields));
                }
            }
        }
        if forall|i: int| 0 <= i < variants.len() ==> spec_fieldset_ok(
            #[trigger] variants[i].fields,
        ) {
            assert forall|i: int| 0 <= i < prefix.len() implies spec_fieldset_ok(
                #[trigger] prefix[i].fields,
            ) by {
                assert(prefix[i] == variants[i]);
            }
            assert(spec_flatten_union_variants(owner, prefix) is Ok);
            assert(spec_flatten_variant(owner, variants.last()) is Ok);
        }
    }
}

/// When success is owed: the pass succeeds exactly on the acceptable
/// definitions — a record or union in which no field carries two
/// flattening annotations or an empty path, and no positional field
/// carries one at all. On everything else it fails, atomically.
pub proof fn lemma_success_iff(item: ItemDefV)
    ensures
        spec_flat_path(item) is Ok <==> spec_item_ok(item),
{
    match item {
        ItemDefV::Record(def) => {
            match def.fields {
                FieldSetV::Named(fs) => {
                    lemma_flatten_fields_ok_iff(def.name, None, fs);
                },
                _ => {},
            }
        },
        ItemDefV::Union(def) => {
            lemma_flatten_variants_ok_iff(def.name, def.variants);
        },
        ItemDefV::Unsupported => {},
    }
}

/// When every field before `m` rewrites without error, so does the prefix
/// of length `m` as a whole.
proof fn lemma_flatten_fields_ok_prefix(
    owner: Seq<char>,
    variant: Option<Seq<char>>,
    fields: Seq<NamedFieldV>,
    m: int,
)
    requires
        0 <= m <= fields.len(),
        forall|j: int| 0 <= j < m ==> spec_rewrite_field(owner, variant, #[trigger] fields[j]) is Ok,
    ensures
        spec_flatten_fields(owner, variant, fields.take(m)) is Ok,
    decreases m,
{
    if m > 0 {
        lemma_flatten_fields_ok_prefix(owner, variant, fields, m - 1);
        assert(fields.take(m).drop_last() =~= fields.take(m - 1));
        assert(fields.take(m).last() == fields[m - 1]);
    }
}

/// When the first field that fails to rewrite fails with `e`, the whole
/// record — and with it the whole pass — fails with `e` and emits nothing.
pub proof fn lemma_record_field_error(def: RecordDefV, i: int, e: GenError)
    requires
        def.fields is Named,
        0 <= i < def.fields->Named_0.len(),
        spec_rewrite_field(def.name, None, def.fields->Named_0[i]) == Err::<
            (NamedFieldV, Option<ChainSpecV>),
            GenError,
        >(e),
        forall|j: int|
            0 <= j < i ==> spec_rewrite_field(def.name, None, #[trigger] def.fields->Named_0[j])
                is Ok,
    ensures
        spec_flat_path(ItemDefV::Record(def)) == Err::<ExpansionV, GenError>(e),
{
    let fields = def.fields->Named_0;
    lemma_flatten_fields_ok_prefix(def.name, None, fields, i);
    assert(fields.take(i + 1).drop_last() =~= fields.take(i));
    assert(fields.take(i + 1).last() == fields[i]);
    assert(spec_flatten_fields(def.name, None, fields.take(i + 1)) == Err::<
        (Seq<NamedFieldV>, Seq<ChainSpecV>),
        GenError,
    >(e));
    lemma_flatten_fields_err(def.name, None, fields, i + 1);
}

/// A second flattening annotation on one field rejects the whole record
/// with `DuplicateAnnotation` — before the paths are even looked at — as
/// long as the fields before it are in order.
pub proof fn lemma_duplicate_annotation_rejected(def: RecordDefV, i: int)
    requires
        def.fields is Named,
        0 <= i < def.fields->Named_0.len(),
        spec_flat_count(def.fields->Named_0[i].attrs) >= 2,
        forall|j: int|
            0 <= j < i ==> spec_rewrite_field(def.name, None, #[trigger] def.fields->Named_0[j])
                is Ok,
    ensures
        spec_flat_path(ItemDefV::Record(def)) == Err::<ExpansionV, GenError>(
            GenError::DuplicateAnnotation,
        ),
{
    lemma_record_field_error(def, i, GenError::DuplicateAnnotation);
}

/// A flattening annotation whose path holds no keys rejects the whole
/// record with `EmptyPath`, as long as the fields before it are in order.
pub proof fn lemma_empty_path_rejected(def: RecordDefV, i: int)
    requires
        def.fields is Named,
        0 <= i < def.fields->Named_0.len(),
        spec_flat_count(def.fields->Named_0[i].attrs) == 1,
        spec_split_flat(def.fields->Named_0[i].attrs).0[0].len() == 0,
        forall|j: int|
            0 <= j < i ==> spec_rewrite_field(def.name, None, #[trigger] def.fields->Named_0[j])
                is Ok,
    ensures
        spec_flat_path(ItemDefV::Record(def)) == Err::<ExpansionV, GenError>(GenError::EmptyPath),
{
    lemma_record_field_error(def, i, GenError::EmptyPath);
}

/// A flattening annotation on a positional field rejects the whole record
/// with `UnnamedFieldNotSupported`.
pub proof fn lemma_positional_rejected(def: RecordDefV)
    requires
        def.fields is Positional,
        spec_positional_has_flat(def.fields->Positional_0),
    ensures
        spec_flat_path(ItemDefV::Record(def)) == Err::<ExpansionV, GenError>(
            GenError::UnnamedFieldNotSupported,
        ),
{
}

/// Every chain a field list yields carries the adapter reference of its
/// own scope: the owning type's name and the variant it was made under.
proof fn lemma_flatten_fields_adapters(
    owner: Seq<char>,
    variant: Option<Seq<char>>,
    fields: Seq<NamedFieldV>,
)
    requires
        spec_flatten_fields(owner, variant, fields) is Ok,
    ensures
        forall|k: int|
            0 <= k < spec_flatten_fields(owner, variant, fields)->Ok_0.1.len() ==> {
                let chain = #[trigger] spec_flatten_fields(owner, variant, fields)->Ok_0.1[k];
                chain.adapter.owner == owner && chain.adapter.variant == variant
            },
    decreases fields.len(),
{
    if fields.len() > 0 {
        lemma_flatten_fields_adapters(owner, variant, fields.drop_last());
    }
}

/// When every variant before `m` rewrites without error, so does the
/// prefix of length `m` as a whole.
proof fn lemma_flatten_variants_ok_prefix(owner: Seq<char>, variants: Seq<VariantDefV>, m: int)
    requires
        0 <= m <= variants.len(),
        forall|j: int| 0 <= j < m ==> spec_flatten_variant(owner, #[trigger] variants[j]) is Ok,
    ensures
        spec_flatten_union_variants(owner, variants.take(m)) is Ok,
    decreases m,
{
    if m > 0 {
        lemma_flatten_variants_ok_prefix(owner, variants, m - 1);
        assert(variants.take(m).drop_last() =~= variants.take(m - 1));
        assert(variants.take(m).last() == variants[m - 1]);
    }
}

/// When the first variant that fails to rewrite fails with `e`, the whole
/// union — and with it the whole pass — fails with `e` and emits nothing:
/// a flattening annotation on a positional field of a variant, a duplicate
/// or an empty path inside a variant all reject the union exactly as they
/// would reject a record.
pub proof fn lemma_union_variant_error(def: UnionDefV, i: int, e: GenError)
    requires
        0 <= i < def.variants.len(),
        spec_flatten_variant(def.name, def.variants[i]) == Err::<
            (VariantDefV, Option<VariantScopeV>),
            GenError,
        >(e),
        forall|j: int|
            0 <= j < i ==> spec_flatten_variant(def.name, #[trigger] def.variants[j]) is Ok,
    ensures
        spec_flat_path(ItemDefV::Union(def)) == Err::<ExpansionV, GenError>(e),
{
    let variants = def.variants;
    lemma_flatten_variants_ok_prefix(def.name, variants, i);
    assert(variants.take(i + 1).drop_last() =~= variants.take(i));
    assert(variants.take(i + 1).last() == variants[i]);
    assert(spec_flatten_union_variants(def.name, variants.take(i + 1)) == Err::<
        (Seq<VariantDefV>, Seq<VariantScopeV>),
        GenError,
    >(e));
    lemma_flatten_variants_err(def.name, variants, i + 1);
    assert(variants.take(i + 1) =~= variants.take(i + 1));
}

/// One generated scope is sound for a union: it is labelled with the name
/// of one of the union's variants, and each of its chains carries that very
/// variant in its adapter reference, under the union's own name.
pub open spec fn scope_sound(
    owner: Seq<char>,
    variants: Seq<VariantDefV>,
    scope: VariantScopeV,
) -> bool {
    &&& exists|i: int| 0 <= i < variants.len() && (#[trigger] variants[i].name) == scope.variant
    &&& forall|c: int|
        0 <= c < scope.chains.len() ==> (#[trigger] scope.chains[c]).adapter.owner == owner
            && scope.chains[c].adapter.variant == Some(scope.variant)
}

/// Every scope a union yields is sound in the sense of [`scope_sound`].
proof fn lemma_union_scopes_sound(owner: Seq<char>, variants: Seq<VariantDefV>)
    requires
        spec_flatten_union_variants(owner, variants) is Ok,
    ensures
        forall|k: int|
            0 <= k < spec_flatten_union_variants(owner, variants)->Ok_0.1.len() ==> scope_sound(
                owner,
                variants,
                #[trigger] spec_flatten_union_variants(owner, variants)->Ok_0.1[k],
            ),
    decreases variants.len(),
{
    if variants.len() > 0 {
        lemma_union_scopes_sound(owner, variants.drop_last());
        let last = variants.last();
        assert(forall|i: int|
            0 <= i < variants.drop_last().len() ==> #[trigger] variants.drop_last()[i].name
                == variants[i].name);
        assert(forall|k: int|
            0 <= k < spec_flatten_union_variants(owner, variants.drop_last())->Ok_0.1.len()
                ==> scope_sound(
                owner,
                variants,
                #[trigger] spec_flatten_union_variants(owner, variants.drop_last())->Ok_0.1[k],
            ));
        match spec_flatten_variant(owner, last) {
            Ok((v2, Some(s))) => {
                match last.fields {
                    FieldSetV::Named(fs) => {
                        lemma_flatten_fields_adapters(owner, Some(last.name), fs);
                        assert(last.name == s.variant);
                        assert(0 <= variants.len() - 1 < variants.len() && variants[variants.len()
                            - 1].name == s.variant);
                        assert(scope_sound(owner, variants, s));
                    },
                    _ => {
                        assert(false);
                    },
                }
            },
            _ => {},
        }
    }
}

/// Scopes generated for distinctly named variants are distinct.
proof fn lemma_union_scopes_distinct(owner: Seq<char>, variants: Seq<VariantDefV>)
    requires
        spec_flatten_union_variants(owner, variants) is Ok,
        forall|i: int, j: int|
            0 <= i < j < variants.len() ==> (#[trigger] variants[i].name) != (
            #[trigger] variants[j].name),
    ensures
        forall|k: int, l: int|
            0 <= k < l < spec_flatten_union_variants(owner, variants)->Ok_0.1.len()
                ==> (#[trigger] spec_flatten_union_variants(owner, variants)->Ok_0.1[k].variant)
                != (#[trigger] spec_flatten_union_variants(owner, variants)->Ok_0.1[l].variant),
    decreases variants.len(),
{
    if variants.len() > 0 {
        let prefix = variants.drop_last();
        assert(forall|i: int|
            0 <= i < prefix.len() ==> #[trigger] prefix[i].name == variants[i].name);
        lemma_union_scopes_distinct(owner, prefix);
        lemma_union_scopes_sound(owner, prefix);
        let last = variants.last();
        match spec_flatten_variant(owner, last) {
            Ok((v2, Some(s))) => {
                assert(s.variant == last.name);
                assert forall|k: int|
                    0 <= k < spec_flatten_union_variants(owner, prefix)->Ok_0.1.len() implies (
                #[trigger] spec_flatten_union_variants(owner, prefix)->Ok_0.1[k].variant)
                    != s.variant by {
                    assert(scope_sound(
                        owner,
                        prefix,
                        spec_flatten_union_variants(owner, prefix)->Ok_0.1[k],
                    ));
                }
            },
            _ => {},
        }
    }
}

/// Two variants of one union may flatten fields along the very same path:
/// each variant's chains live in a scope of its own. When the variants'
/// names are distinct — as they are in any well-formed union — no two
/// generated scopes share a label, and every chain's adapter reference
/// names exactly its own variant under the union's own name, so the chains
/// of different variants can never reach each other.
pub proof fn lemma_variant_scopes_independent(def: UnionDefV, exp: ExpansionV)
    requires
        spec_flat_path(ItemDefV::Union(def)) == Ok::<ExpansionV, GenError>(exp),
        forall|i: int, j: int|
            0 <= i < j < def.variants.len() ==> (#[trigger] def.variants[i].name) != (
            #[trigger] def.variants[j].name),
        exp.namespace is Some,
    ensures
        exp.namespace->Some_0.owner == def.name,
        exp.namespace->Some_0.body is Union,
        forall|k: int, l: int|
            0 <= k < l < exp.namespace->Some_0.body->Union_0.len()
                ==> (#[trigger] exp.namespace->Some_0.body->Union_0[k].variant)
                != (#[trigger] exp.namespace->Some_0.body->Union_0[l].variant),
        forall|k: int|
            0 <= k < exp.namespace->Some_0.body->Union_0.len() ==> scope_sound(
                def.name,
                def.variants,
                #[trigger] exp.namespace->Some_0.body->Union_0[k],
            ),
{
    lemma_union_scopes_distinct(def.name, def.variants);
    lemma_union_scopes_sound(def.name, def.variants);
}

} // verus!
