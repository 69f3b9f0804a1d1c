//! The generation pass.
//!
//! [`flat_path`] takes one type definition and either rewrites it — every
//! field with a flattening annotation is redirected through a generated
//! wrapper chain, collected in one namespace per record or per union
//! variant — or rejects the whole definition with a single error and emits
//! nothing. The pass is atomic: there is no partial output.

use crate::extract::extract_annotations;
use crate::extract::spec_extract;
use crate::extract::Extraction;
use crate::model::AdapterRef;
use crate::model::AdapterRefV;
use crate::model::ChainSpec;
use crate::model::ChainSpecV;
use crate::model::Expansion;
use crate::model::ExpansionV;
use crate::model::FieldAttr;
use crate::model::FieldAttrV;
use crate::model::FieldSet;
use crate::model::FieldSetV;
use crate::model::GenError;
use crate::model::ItemDef;
use crate::model::ItemDefV;
use crate::model::NamedField;
use crate::model::NamedFieldV;
use crate::model::Namespace;
use crate::model::NamespaceBody;
use crate::model::NamespaceBodyV;
use crate::model::NamespaceV;
use crate::model::PositionalField;
use crate::model::PositionalFieldV;
use crate::model::RecordDef;
use crate::model::RecordDefV;
use crate::model::UnionDef;
use crate::model::UnionDefV;
use crate::model::Variant;
use crate::model::VariantDefV;
use crate::model::VariantScope;
use crate::model::VariantScopeV;
use vstd::prelude::*;

verus! {

/// The view of an optional borrowed name.
pub open spec fn opt_name_view(v: Option<&String>) -> Option<Seq<char>> {
    match v {
        Some(s) => Some(s@),
        None => None,
    }
}

/// Whether any annotation in the list is a flattening annotation.
pub open spec fn spec_attrs_have_flat(attrs: Seq<FieldAttrV>) -> bool {
    exists|j: int| 0 <= j < attrs.len() && attrs[j] is FlatPath
}

/// Whether any positional field carries a flattening annotation.
pub open spec fn spec_positional_has_flat(fields: Seq<PositionalFieldV>) -> bool {
    exists|i: int| 0 <= i < fields.len() && spec_attrs_have_flat(fields[i].attrs)
}

/// What rewriting one named field yields: the field untouched when it has
/// no flattening annotation; otherwise the field with the annotation and
/// the customizations removed, a redirect to the generated adapters
/// appended, and the chain that the namespace receives for it.
pub open spec fn spec_rewrite_field(
    owner: Seq<char>,
    variant: Option<Seq<char>>,
    field: NamedFieldV,
) -> Result<(NamedFieldV, Option<ChainSpecV>), GenError> {
    match spec_extract(field.attrs) {
        Err(e) => Err(e),
        Ok(ex) => match ex.path {
            None => Ok((NamedFieldV { name: field.name, attrs: ex.kept }, None)),
            Some(keys) => {
                let adapter = AdapterRefV { owner, variant, field: field.name };
                Ok(
                    (
                        NamedFieldV {
                            name: field.name,
                            attrs: ex.kept.push(
                                FieldAttrV::Redirect { key: keys[0], adapter },
                            ),
                        },
                        Some(
                            ChainSpecV {
                                field: field.name,
                                first_key: keys[0],
                                rest_keys: keys.drop_first(),
                                leaf_customizations: ex.customizations,
                                adapter,
                            },
                        ),
                    ),
                )
            },
        },
    }
}

/// What rewriting a whole field list yields: the rewritten fields in
/// order and the chains of the flattened ones in order; the first failing
/// field's error, fields checked front to back.
pub open spec fn spec_flatten_fields(
    owner: Seq<char>,
    variant: Option<Seq<char>>,
    fields: Seq<NamedFieldV>,
) -> Result<(Seq<NamedFieldV>, Seq<ChainSpecV>), GenError>
    decreases fields.len(),
{
    if fields.len() == 0 {
        Ok((Seq::<NamedFieldV>::empty(), Seq::<ChainSpecV>::empty()))
    } else {
        match spec_flatten_fields(owner, variant, fields.drop_last()) {
            Err(e) => Err(e),
            Ok((fs, chains)) => match spec_rewrite_field(owner, variant, fields.last()) {
                Err(e) => Err(e),
                Ok((f, None)) => Ok((fs.push(f), chains)),
                Ok((f, Some(c))) => Ok((fs.push(f), chains.push(c))),
            },
        }
    }
}

/// What the record handler yields: a unit-like record and a positional
/// record without flattening annotations pass through unchanged with no
/// chains; a positional field with a flattening annotation rejects the
/// record; named fields are rewritten one by one.
pub open spec fn spec_flatten_record(def: RecordDefV) -> Result<
    (RecordDefV, Seq<ChainSpecV>),
    GenError,
> {
    match def.fields {
        FieldSetV::Unit => Ok((def, Seq::<ChainSpecV>::empty())),
        FieldSetV::Positional(ps) => if spec_positional_has_flat(ps) {
            Err(GenError::UnnamedFieldNotSupported)
        } else {
            Ok((def, Seq::<ChainSpecV>::empty()))
        },
        FieldSetV::Named(fs) => match spec_flatten_fields(def.name, None, fs) {
            Err(e) => Err(e),
            Ok((fs2, chains)) => Ok(
                (RecordDefV { name: def.name, fields: FieldSetV::Named(fs2) }, chains),
            ),
        },
    }
}

/// What the union handler yields for one variant: as for a record, but the
/// chains live in a scope labelled with the variant's name, and a variant
/// without flattened fields contributes no scope at all.
pub open spec fn spec_flatten_variant(owner: Seq<char>, v: VariantDefV) -> Result<
    (VariantDefV, Option<VariantScopeV>),
    GenError,
> {
    match v.fields {
        FieldSetV::Unit => Ok((v, None::<VariantScopeV>)),
        FieldSetV::Positional(ps) => if spec_positional_has_flat(ps) {
            Err(GenError::UnnamedFieldNotSupported)
        } else {
            Ok((v, None::<VariantScopeV>))
        },
        FieldSetV::Named(fs) => match spec_flatten_fields(owner, Some(v.name), fs) {
            Err(e) => Err(e),
            Ok((fs2, chains)) => Ok(
                (
                    VariantDefV { name: v.name, fields: FieldSetV::Named(fs2) },
                    if chains.len() > 0 {
                        Some(VariantScopeV { variant: v.name, chains })
                    } else {
                        None::<VariantScopeV>
                    },
                ),
            ),
        },
    }
}

/// What the union handler yields over all variants, front to back: the
/// rewritten variants in order and the scopes of those that have flattened
/// fields, in order; the first failing variant's error.
pub open spec fn spec_flatten_union_variants(
    owner: Seq<char>,
    variants: Seq<VariantDefV>,
) -> Result<(Seq<VariantDefV>, Seq<VariantScopeV>), GenError>
    decreases variants.len(),
{
    if variants.len() == 0 {
        Ok((Seq::<VariantDefV>::empty(), Seq::<VariantScopeV>::empty()))
    } else {
        match spec_flatten_union_variants(owner, variants.drop_last()) {
            Err(e) => Err(e),
            Ok((vs, scopes)) => match spec_flatten_variant(owner, variants.last()) {
                Err(e) => Err(e),
                Ok((v2, None)) => Ok((vs.push(v2), scopes)),
                Ok((v2, Some(s))) => Ok((vs.push(v2), scopes.push(s))),
            },
        }
    }
}

/// What the union handler yields.
pub open spec fn spec_flatten_union(def: UnionDefV) -> Result<
    (UnionDefV, Seq<VariantScopeV>),
    GenError,
> {
    match spec_flatten_union_variants(def.name, def.variants) {
        Err(e) => Err(e),
        Ok((vs, scopes)) => Ok((UnionDefV { name: def.name, variants: vs }, scopes)),
    }
}

/// What the whole pass yields: dispatch on the definition's shape, rewrite
/// it, and wrap the chains in a namespace named after the type — or no
/// namespace when nothing was flattened. Any other shape is rejected.
pub open spec fn spec_flat_path(item: ItemDefV) -> Result<ExpansionV, GenError> {
    match item {
        ItemDefV::Record(def) => match spec_flatten_record(def) {
            Err(e) => Err(e),
            Ok((def2, chains)) => Ok(
                ExpansionV {
                    item: ItemDefV::Record(def2),
                    namespace: if chains.len() > 0 {
                        Some(NamespaceV { owner: def.name, body: NamespaceBodyV::Record(chains) })
                    } else {
                        None::<NamespaceV>
                    },
                },
            ),
        },
        ItemDefV::Union(def) => match spec_flatten_union(def) {
            Err(e) => Err(e),
            Ok((def2, scopes)) => Ok(
                ExpansionV {
                    item: ItemDefV::Union(def2),
                    namespace: if scopes.len() > 0 {
                        Some(NamespaceV { owner: def.name, body: NamespaceBodyV::Union(scopes) })
                    } else {
                        None::<NamespaceV>
                    },
                },
            ),
        },
        ItemDefV::Unsupported => Err(GenError::UnsupportedShape),
    }
}

// ------------------------------------------------------------------
// Views of executable results.
// ------------------------------------------------------------------

pub open spec fn field_result_view(r: Result<(NamedField, Option<ChainSpec>), GenError>) -> Result<
    (NamedFieldV, Option<ChainSpecV>),
    GenError,
> {
    match r {
        Ok((f, Some(c))) => Ok((f@, Some(c@))),
        Ok((f, None)) => Ok((f@, None::<ChainSpecV>)),
        Err(e) => Err(e),
    }
}

pub open spec fn record_result_view(r: Result<(RecordDef, Vec<ChainSpec>), GenError>) -> Result<
    (RecordDefV, Seq<ChainSpecV>),
    GenError,
> {
    match r {
        Ok((def, chains)) => Ok((def@, chains.deep_view())),
        Err(e) => Err(e),
    }
}

pub open spec fn union_result_view(r: Result<(UnionDef, Vec<VariantScope>), GenError>) -> Result<
    (UnionDefV, Seq<VariantScopeV>),
    GenError,
> {
    match r {
        Ok((def, scopes)) => Ok((def@, scopes.deep_view())),
        Err(e) => Err(e),
    }
}

pub open spec fn expansion_result_view(r: Result<Expansion, GenError>) -> Result<
    ExpansionV,
    GenError,
> {
    match r {
        Ok(exp) => Ok(exp@),
        Err(e) => Err(e),
    }
}

// ------------------------------------------------------------------
// Executable pass.
// ------------------------------------------------------------------

/// Build the reference under which one field's adapter pair is reached.
fn make_adapter(owner: &String, variant: Option<&String>, field: &String) -> (r: AdapterRef)
    ensures
        r@ == (AdapterRefV { owner: owner@, variant: opt_name_view(variant), field: field@ }),
{
    AdapterRef {
        owner: owner.clone(),
        variant: match variant {
            Some(s) => Some(s.clone()),
            None => None,
        },
        field: field.clone(),
    }
}

/// Rewrite one named field, yielding the chain for its namespace when the
/// field was flattened.
pub fn rewrite_field(owner: &String, variant: Option<&String>, field: NamedField) -> (r: Result<
    (NamedField, Option<ChainSpec>),
    GenError,
>)
    ensures
        field_result_view(r) == spec_rewrite_field(owner@, opt_name_view(variant), field@),
{
    let NamedField { name, attrs } = field;
    match extract_annotations(attrs) {
        Err(e) => Err(e),
        Ok(ex) => {
            let Extraction { path, customizations, kept } = ex;
            match path {
                None => Ok((NamedField { name, attrs: kept }, None)),
                Some(mut keys) => {
                    let ghost keys0 = keys.deep_view();
                    proof {
                        assert(keys0.len() == keys@.len());
                        assert(keys0.len() >= 1);
                    }
                    let first_key = keys.remove(0);
                    proof {
                        assert(first_key@ == keys0[0]);
                        assert forall|k: int| 0 <= k < keys@.len() implies keys.deep_view()[k]
                            == keys0.drop_first()[k] by {
                            assert(keys.deep_view()[k] == keys@[k].deep_view());
                        }
                        assert(keys.deep_view().len() == keys@.len());
                        assert(keys.deep_view() =~= keys0.drop_first());
                    }
                    let adapter = make_adapter(owner, variant, &name);
                    let chain_adapter = make_adapter(owner, variant, &name);
                    let redirect = FieldAttr::Redirect { key: first_key.clone(), adapter };
                    let ghost kept0 = kept.deep_view();
                    let mut new_attrs = kept;
                    new_attrs.push(redirect);
                    proof {
                        assert(new_attrs.deep_view() =~= kept0.push(redirect@));
                    }
                    let chain = ChainSpec {
                        field: name.clone(),
                        first_key,
                        rest_keys: keys,
                        leaf_customizations: customizations,
                        adapter: chain_adapter,
                    };
                    Ok((NamedField { name, attrs: new_attrs }, Some(chain)))
                },
            }
        },
    }
}

/// An error of an early field prefix is the error of the whole list.
pub proof fn lemma_flatten_fields_err(
    owner: Seq<char>,
    variant: Option<Seq<char>>,
    fields: Seq<NamedFieldV>,
    m: int,
)
    requires
        0 <= m <= fields.len(),
        spec_flatten_fields(owner, variant, fields.take(m)) is Err,
    ensures
        spec_flatten_fields(owner, variant, fields) == spec_flatten_fields(
            owner,
            variant,
            fields.take(m),
        ),
    decreases fields.len() - m,
{
    if m < fields.len() {
        assert(fields.take(m + 1).drop_last() =~= fields.take(m));
        lemma_flatten_fields_err(owner, variant, fields, m + 1);
    } else {
        assert(fields.take(m) =~= fields);
    }
}

/// Rewrite a whole list of named fields, front to back.
fn flatten_fields(owner: &String, variant: Option<&String>, fields: Vec<NamedField>) -> (r: Result<
    (Vec<NamedField>, Vec<ChainSpec>),
    GenError,
>)
    ensures
        match r {
            Ok((fs, chains)) => spec_flatten_fields(owner@, opt_name_view(variant),
                fields.deep_view(),
            ) == Ok::<(Seq<NamedFieldV>, Seq<ChainSpecV>), GenError>(
                (fs.deep_view(), chains.deep_view()),
            ),
            Err(e) => spec_flatten_fields(owner@, opt_name_view(variant), fields.deep_view())
                == Err::<(Seq<NamedFieldV>, Seq<ChainSpecV>), GenError>(e),
        },
{
    let ghost fields0 = fields.deep_view();
    let ghost ow = owner@;
    let ghost va = opt_name_view(variant);
    let mut remaining = fields;
    let mut out_fields: Vec<NamedField> = Vec::new();
    let mut out_chains: Vec<ChainSpec> = Vec::new();
    let ghost n = fields0.len();
    let ghost mut i: int = 0;
    proof {
        assert(fields0.take(0) =~= Seq::<NamedFieldV>::empty());
        assert(out_fields.deep_view() =~= Seq::<NamedFieldV>::empty());
        assert(out_chains.deep_view() =~= Seq::<ChainSpecV>::empty());
    }
    while remaining.len() > 0
        invariant
            0 <= i <= n,
            n == fields0.len(),
            fields0 == fields.deep_view(),
            ow == owner@,
            va == opt_name_view(variant),
            remaining.deep_view() == fields0.subrange(i, n as int),
            spec_flatten_fields(ow, va, fields0.take(i)) == Ok::<
                (Seq<NamedFieldV>, Seq<ChainSpecV>),
                GenError,
            >((out_fields.deep_view(), out_chains.deep_view())),
        decreases remaining.len(),
    {
        let ghost fs_pre = out_fields.deep_view();
        let ghost chains_pre = out_chains.deep_view();
        let ghost rem_pre = remaining@;
        let ghost rem_deep_pre = remaining.deep_view();
        proof {
            assert(rem_deep_pre.len() == rem_pre.len());
            assert(i < n);
        }
        let f = remaining.remove(0);
        proof {
            assert(f == rem_pre[0]);
            assert(rem_pre[0].deep_view() == rem_deep_pre[0]);
            assert(f@ == fields0[i]);
            assert(remaining@ == rem_pre.remove(0));
            assert forall|k: int| 0 <= k < remaining@.len() implies remaining.deep_view()[k]
                == fields0.subrange(i + 1, n as int)[k] by {
                assert(remaining.deep_view()[k] == remaining@[k].deep_view());
                assert(remaining@[k] == rem_pre[k + 1]);
                assert(rem_pre[k + 1].deep_view() == rem_deep_pre[k + 1]);
            }
            assert(remaining.deep_view().len() == remaining@.len());
            assert(remaining.deep_view() =~= fields0.subrange(i + 1, n as int));
            assert(fields0.take(i + 1).drop_last() =~= fields0.take(i));
            assert(fields0.take(i + 1).last() == fields0[i]);
        }
        match rewrite_field(owner, variant, f) {
            Err(e) => {
                proof {
                    assert(spec_flatten_fields(ow, va, fields0.take(i + 1)) == Err::<
                        (Seq<NamedFieldV>, Seq<ChainSpecV>),
                        GenError,
                    >(e));
                    lemma_flatten_fields_err(ow, va, fields0, i + 1);
                }
                return Err(e);
            },
            Ok((f2, maybe_chain)) => {
                out_fields.push(f2);
                proof {
                    assert(out_fields.deep_view() =~= fs_pre.push(out_fields@.last().deep_view()));
                }
                match maybe_chain {
                    Some(c) => {
                        out_chains.push(c);
                        proof {
                            assert(out_chains.deep_view() =~= chains_pre.push(
                                out_chains@.last().deep_view(),
                            ));
                        }
                    },
                    None => {},
                }
                proof {
                    i = i + 1;
                }
            },
        }
    }
    proof {
        assert(remaining.deep_view().len() == remaining@.len());
        assert(i == n);
        assert(fields0.take(i) =~= fields0);
    }
    Ok((out_fields, out_chains))
}

/// Whether any annotation in the list is a flattening annotation.
fn attrs_have_flat(attrs: &Vec<FieldAttr>) -> (r: bool)
    ensures
        r == spec_attrs_have_flat(attrs.deep_view()),
{
    let mut j: usize = 0;
    while j < attrs.len()
        invariant
            j <= attrs.len(),
            forall|jj: int| 0 <= jj < j ==> !(attrs.deep_view()[jj] is FlatPath),
        decreases attrs.len() - j,
    {
        let is_flat = match &attrs[j] {
            FieldAttr::FlatPath(_) => true,
            _ => false,
        };
        if is_flat {
            proof {
                assert(attrs.deep_view()[j as int] == attrs@[j as int].deep_view());
                assert(attrs.deep_view()[j as int] is FlatPath);
            }
            return true;
        }
        proof {
            assert(attrs.deep_view()[j as int] == attrs@[j as int].deep_view());
        }
        j = j + 1;
    }
    proof {
        assert(attrs.deep_view().len() == attrs@.len());
    }
    false
}

/// Whether any positional field carries a flattening annotation.
fn positional_has_flat(fields: &Vec<PositionalField>) -> (r: bool)
    ensures
        r == spec_positional_has_flat(fields.deep_view()),
{
    let mut idx: usize = 0;
    while idx < fields.len()
        invariant
            idx <= fields.len(),
            forall|ii: int| 0 <= ii < idx ==> !spec_attrs_have_flat(
                #[trigger] fields.deep_view()[ii].attrs,
            ),
        decreases fields.len() - idx,
    {
        proof {
            assert(fields.deep_view()[idx as int] == fields@[idx as int].deep_view());
        }
        if attrs_have_flat(&fields[idx].attrs) {
            return true;
        }
        idx = idx + 1;
    }
    proof {
        assert(fields.deep_view().len() == fields@.len());
    }
    false
}

/// The record handler: rewrite every named field of a record; a record
/// without named fields passes through unchanged unless a positional field
/// carries the flattening annotation.
pub fn flatten_record(def: RecordDef) -> (r: Result<(RecordDef, Vec<ChainSpec>), GenError>)
    ensures
        record_result_view(r) == spec_flatten_record(def@),
{
    let RecordDef { name, fields } = def;
    match fields {
        FieldSet::Unit => {
            let chains: Vec<ChainSpec> = Vec::new();
            proof {
                assert(chains.deep_view() =~= Seq::<ChainSpecV>::empty());
            }
            Ok((RecordDef { name, fields: FieldSet::Unit }, chains))
        },
        FieldSet::Positional(ps) => {
            if positional_has_flat(&ps) {
                Err(GenError::UnnamedFieldNotSupported)
            } else {
                let chains: Vec<ChainSpec> = Vec::new();
                proof {
                    assert(chains.deep_view() =~= Seq::<ChainSpecV>::empty());
                }
                Ok((RecordDef { name, fields: FieldSet::Positional(ps) }, chains))
            }
        },
        FieldSet::Named(fs) => match flatten_fields(&name, None, fs) {
            Err(e) => Err(e),
            Ok((fs2, chains)) => Ok((RecordDef { name, fields: FieldSet::Named(fs2) }, chains)),
        },
    }
}

/// The union handler for one variant: as the record handler, but the
/// chains go to a scope labelled with the variant's name, and only a
/// variant that flattened at least one field gets a scope.
pub fn flatten_variant(owner: &String, variant: Variant) -> (r: Result<
    (Variant, Option<VariantScope>),
    GenError,
>)
    ensures
        match r {
            Ok((v2, Some(s))) => spec_flatten_variant(owner@, variant@) == Ok::<
                (VariantDefV, Option<VariantScopeV>),
                GenError,
            >((v2@, Some(s@))),
            Ok((v2, None)) => spec_flatten_variant(owner@, variant@) == Ok::<
                (VariantDefV, Option<VariantScopeV>),
                GenError,
            >((v2@, None::<VariantScopeV>)),
            Err(e) => spec_flatten_variant(owner@, variant@) == Err::<
                (VariantDefV, Option<VariantScopeV>),
                GenError,
            >(e),
        },
{
    let Variant { name, fields } = variant;
    match fields {
        FieldSet::Unit => Ok((Variant { name, fields: FieldSet::Unit }, None)),
        FieldSet::Positional(ps) => {
            if positional_has_flat(&ps) {
                Err(GenError::UnnamedFieldNotSupported)
            } else {
                Ok((Variant { name, fields: FieldSet::Positional(ps) }, None))
            }
        },
        FieldSet::Named(fs) => {
            let variant_name = name.clone();
            match flatten_fields(owner, Some(&variant_name), fs) {
                Err(e) => Err(e),
                Ok((fs2, chains)) => {
                    proof {
                        assert(chains.deep_view().len() == chains@.len());
                    }
                    if chains.len() > 0 {
                        let scope = VariantScope { variant: name.clone(), chains };
                        Ok((Variant { name, fields: FieldSet::Named(fs2) }, Some(scope)))
                    } else {
                        Ok((Variant { name, fields: FieldSet::Named(fs2) }, None))
                    }
                },
            }
        },
    }
}

/// An error of an early variant prefix is the error of the whole union.
pub proof fn lemma_flatten_variants_err(owner: Seq<char>, variants: Seq<VariantDefV>, m: int)
    requires
        0 <= m <= variants.len(),
        spec_flatten_union_variants(owner, variants.take(m)) is Err,
    ensures
        spec_flatten_union_variants(owner, variants) == spec_flatten_union_variants(
            owner,
            variants.take(m),
        ),
    decreases variants.len() - m,
{
    if m < variants.len() {
        assert(variants.take(m + 1).drop_last() =~= variants.take(m));
        lemma_flatten_variants_err(owner, variants, m + 1);
    } else {
        assert(variants.take(m) =~= variants);
    }
}

/// The union handler: rewrite every variant, front to back.
pub fn flatten_union(def: UnionDef) -> (r: Result<(UnionDef, Vec<VariantScope>), GenError>)
    ensures
        union_result_view(r) == spec_flatten_union(def@),
{
    let UnionDef { name, variants } = def;
    let ghost variants0 = variants.deep_view();
    let ghost ow = name@;
    let mut remaining = variants;
    let mut out_variants: Vec<Variant> = Vec::new();
    let mut out_scopes: Vec<VariantScope> = Vec::new();
    let ghost n = variants0.len();
    let ghost mut i: int = 0;
    proof {
        assert(variants0.take(0) =~= Seq::<VariantDefV>::empty());
        assert(out_variants.deep_view() =~= Seq::<VariantDefV>::empty());
        assert(out_scopes.deep_view() =~= Seq::<VariantScopeV>::empty());
    }
    while remaining.len() > 0
        invariant
            0 <= i <= n,
            n == variants0.len(),
            ow == name@,
            ow == def@.name,
            variants0 == def@.variants,
            remaining.deep_view() == variants0.subrange(i, n as int),
            spec_flatten_union_variants(ow, variants0.take(i)) == Ok::<
                (Seq<VariantDefV>, Seq<VariantScopeV>),
                GenError,
            >((out_variants.deep_view(), out_scopes.deep_view())),
        decreases remaining.len(),
    {
        let ghost vs_pre = out_variants.deep_view();
        let ghost scopes_pre = out_scopes.deep_view();
        let ghost rem_pre = remaining@;
        let ghost rem_deep_pre = remaining.deep_view();
        proof {
            assert(rem_deep_pre.len() == rem_pre.len());
            assert(i < n);
        }
        let v = remaining.remove(0);
        proof {
            assert(v == rem_pre[0]);
            assert(rem_pre[0].deep_view() == rem_deep_pre[0]);
            assert(v@ == variants0[i]);
            assert(remaining@ == rem_pre.remove(0));
            assert forall|k: int| 0 <= k < remaining@.len() implies remaining.deep_view()[k]
                == variants0.subrange(i + 1, n as int)[k] by {
                assert(remaining.deep_view()[k] == remaining@[k].deep_view());
                assert(remaining@[k] == rem_pre[k + 1]);
                assert(rem_pre[k + 1].deep_view() == rem_deep_pre[k + 1]);
            }
            assert(remaining.deep_view().len() == remaining@.len());
            assert(remaining.deep_view() =~= variants0.subrange(i + 1, n as int));
            assert(variants0.take(i + 1).drop_last() =~= variants0.take(i));
            assert(variants0.take(i + 1).last() == variants0[i]);
        }
        match flatten_variant(&name, v) {
            Err(e) => {
                proof {
                    assert(spec_flatten_union_variants(ow, variants0.take(i + 1)) == Err::<
                        (Seq<VariantDefV>, Seq<VariantScopeV>),
                        GenError,
                    >(e));
                    lemma_flatten_variants_err(ow, variants0, i + 1);
                }
                return Err(e);
            },
            Ok((v2, maybe_scope)) => {
                out_variants.push(v2);
                proof {
                    assert(out_variants.deep_view() =~= vs_pre.push(
                        out_variants@.last().deep_view(),
                    ));
                }
                match maybe_scope {
                    Some(s) => {
                        out_scopes.push(s);
                        proof {
                            assert(out_scopes.deep_view() =~= scopes_pre.push(
                                out_scopes@.last().deep_view(),
                            ));
                        }
                    },
                    None => {},
                }
                proof {
                    i = i + 1;
                }
            },
        }
    }
    proof {
        assert(remaining.deep_view().len() == remaining@.len());
        assert(i == n);
        assert(variants0.take(i) =~= variants0);
    }
    Ok((UnionDef { name, variants: out_variants }, out_scopes))
}

/// The whole pass over one type definition.
///
/// A record or union comes back with every flattened field rewritten to
/// its first path key and a redirect to its adapters, plus the namespace
/// of wrapper chains — none at all when no field was flattened, so an
/// unannotated definition passes through unchanged. Any error rejects the
/// definition as a whole: duplicate flattening annotations on one field,
/// an empty path, a flattening annotation on a positional field, or a
/// shape that is neither record nor union.
pub fn flat_path(item: ItemDef) -> (r: Result<Expansion, GenError>)
    ensures
        expansion_result_view(r) == spec_flat_path(item@),
{
    match item {
        ItemDef::Record(def) => {
            let owner = def.name.clone();
            match flatten_record(def) {
                Err(e) => Err(e),
                Ok((def2, chains)) => {
                    proof {
                        assert(chains.deep_view().len() == chains@.len());
                    }
                    if chains.len() > 0 {
                        Ok(
                            Expansion {
                                item: ItemDef::Record(def2),
                                namespace: Some(
                                    Namespace { owner, body: NamespaceBody::Record(chains) },
                                ),
                            },
                        )
                    } else {
                        Ok(Expansion { item: ItemDef::Record(def2), namespace: None })
                    }
                },
            }
        },
        ItemDef::Union(def) => {
            let owner = def.name.clone();
            match flatten_union(def) {
                Err(e) => Err(e),
                Ok((def2, scopes)) => {
                    proof {
                        assert(scopes.deep_view().len() == scopes@.len());
                    }
                    if scopes.len() > 0 {
                        Ok(
                            Expansion {
                                item: ItemDef::Union(def2),
                                namespace: Some(
                                    Namespace { owner, body: NamespaceBody::Union(scopes) },
                                ),
                            },
                        )
                    } else {
                        Ok(Expansion { item: ItemDef::Union(def2), namespace: None })
                    }
                },
            }
        },
        ItemDef::Unsupported => Err(GenError::UnsupportedShape),
    }
}

} // verus!
