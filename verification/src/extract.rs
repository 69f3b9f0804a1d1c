//! The annotation extractor.
//!
//! Given one field's full annotation list it pulls out the flattening
//! annotation, if any, and splits off the host-framework customizations
//! for relocation onto the chain's innermost link. Everything else stays
//! on the field untouched. A second flattening annotation on the same
//! field, or one whose path holds no keys, rejects the whole field.

use crate::model::Customization;
use crate::model::CustomizationV;
use crate::model::FieldAttr;
use crate::model::FieldAttrV;
use crate::model::GenError;
use vstd::prelude::*;

verus! {

/// Split an annotation list into the paths of its flattening annotations,
/// in order, and the remaining annotations, in order.
pub open spec fn spec_split_flat(attrs: Seq<FieldAttrV>) -> (Seq<Seq<Seq<char>>>, Seq<FieldAttrV>)
    decreases attrs.len(),
{
    if attrs.len() == 0 {
        (Seq::<Seq<Seq<char>>>::empty(), Seq::<FieldAttrV>::empty())
    } else {
        let (flats, rest) = spec_split_flat(attrs.drop_last());
        match attrs.last() {
            FieldAttrV::FlatPath(keys) => (flats.push(keys), rest),
            a => (flats, rest.push(a)),
        }
    }
}

/// Split an annotation list into its customizations, in order, and the
/// remaining annotations, in order.
pub open spec fn spec_split_custom(attrs: Seq<FieldAttrV>) -> (
    Seq<CustomizationV>,
    Seq<FieldAttrV>,
)
    decreases attrs.len(),
{
    if attrs.len() == 0 {
        (Seq::<CustomizationV>::empty(), Seq::<FieldAttrV>::empty())
    } else {
        let (customs, kept) = spec_split_custom(attrs.drop_last());
        match attrs.last() {
            FieldAttrV::Custom(c) => (customs.push(c), kept),
            a => (customs, kept.push(a)),
        }
    }
}

/// What the extractor returns for one field on success.
pub struct Extraction {
    /// The flattening annotation's keys; `None` when the field carries no
    /// flattening annotation and stays untouched.
    pub path: Option<Vec<String>>,
    /// The customizations removed for relocation onto the chain's leaf;
    /// empty when `path` is `None`.
    pub customizations: Vec<Customization>,
    /// The annotations the field keeps.
    pub kept: Vec<FieldAttr>,
}

pub struct ExtractionV {
    pub path: Option<Seq<Seq<char>>>,
    pub customizations: Seq<CustomizationV>,
    pub kept: Seq<FieldAttrV>,
}

impl View for Extraction {
    type V = ExtractionV;

    open spec fn view(&self) -> ExtractionV {
        ExtractionV {
            path: match self.path {
                Some(ref keys) => Some(keys.deep_view()),
                None => None,
            },
            customizations: self.customizations.deep_view(),
            kept: self.kept.deep_view(),
        }
    }
}

/// What extraction returns for one annotation list: the parsed path when
/// exactly one flattening annotation with at least one key is present, no
/// path when none is present (then every annotation is kept), and an error
/// on a duplicate — checked before the path's contents — or an empty path.
pub open spec fn spec_extract(attrs: Seq<FieldAttrV>) -> Result<ExtractionV, GenError> {
    let (flats, rest) = spec_split_flat(attrs);
    if flats.len() == 0 {
        Ok(
            ExtractionV {
                path: None,
                customizations: Seq::<CustomizationV>::empty(),
                kept: rest,
            },
        )
    } else if flats.len() >= 2 {
        Err(GenError::DuplicateAnnotation)
    } else if flats[0].len() == 0 {
        Err(GenError::EmptyPath)
    } else {
        let (customs, kept) = spec_split_custom(rest);
        Ok(ExtractionV { path: Some(flats[0]), customizations: customs, kept })
    }
}

/// An annotation list without flattening annotations splits into itself:
/// nothing is removed, the order is kept.
pub proof fn lemma_split_flat_none(attrs: Seq<FieldAttrV>)
    requires
        forall|i: int| 0 <= i < attrs.len() ==> !(#[trigger] attrs[i] is FlatPath),
    ensures
        spec_split_flat(attrs) == (Seq::<Seq<Seq<char>>>::empty(), attrs),
    decreases attrs.len(),
{
    if attrs.len() > 0 {
        lemma_split_flat_none(attrs.drop_last());
        assert(attrs.drop_last().push(attrs.last()) =~= attrs);
    }
}

/// Split the flattening annotations out of `attrs`, in order.
fn split_flat(attrs: Vec<FieldAttr>) -> (r: (Vec<Vec<String>>, Vec<FieldAttr>))
    ensures
        spec_split_flat(attrs.deep_view()) == (r.0.deep_view(), r.1.deep_view()),
{
    let ghost attrs0 = attrs.deep_view();
    let mut remaining = attrs;
    let mut flats: Vec<Vec<String>> = Vec::new();
    let mut rest: Vec<FieldAttr> = Vec::new();
    let ghost n = attrs0.len();
    let ghost mut i: int = 0;
    proof {
        assert(attrs0.take(0) =~= Seq::<FieldAttrV>::empty());
        assert(spec_split_flat(attrs0.take(0)) == (flats.deep_view(), rest.deep_view()));
    }
    while remaining.len() > 0
        invariant
            0 <= i <= n,
            n == attrs0.len(),
            remaining.deep_view() == attrs0.subrange(i, n as int),
            spec_split_flat(attrs0.take(i)) == (flats.deep_view(), rest.deep_view()),
        decreases remaining.len(),
    {
        let ghost flats_pre = flats.deep_view();
        let ghost rest_pre = rest.deep_view();
        let ghost rem_pre = remaining@;
        let ghost rem_deep_pre = remaining.deep_view();
        proof {
            assert(rem_deep_pre.len() == rem_pre.len());
            assert(i < n);
        }
        let a = remaining.remove(0);
        proof {
            assert(a == rem_pre[0]);
            assert(rem_pre[0].deep_view() == rem_deep_pre[0]);
            assert(a@ == attrs0[i]);
            assert(remaining@ == rem_pre.remove(0));
            assert forall|k: int| 0 <= k < remaining@.len() implies remaining.deep_view()[k]
                == attrs0.subrange(i + 1, n as int)[k] by {
                assert(remaining.deep_view()[k] == remaining@[k].deep_view());
                assert(remaining@[k] == rem_pre[k + 1]);
                assert(rem_pre[k + 1].deep_view() == rem_deep_pre[k + 1]);
            }
            assert(remaining.deep_view().len() == remaining@.len());
            assert(remaining.deep_view() =~= attrs0.subrange(i + 1, n as int));
        }
        match a {
            FieldAttr::FlatPath(keys) => {
                flats.push(keys);
                proof {
                    assert(flats.deep_view() =~= flats_pre.push(attrs0[i]->FlatPath_0));
                }
            },
            other => {
                rest.push(other);
                proof {
                    assert(rest.deep_view() =~= rest_pre.push(attrs0[i]));
                }
            },
        }
        proof {
            i = i + 1;
            assert(attrs0.take(i).drop_last() =~= attrs0.take(i - 1));
            assert(attrs0.take(i).last() == attrs0[i - 1]);
        }
    }
    proof {
        assert(remaining.deep_view().len() == remaining@.len());
        assert(i == n);
        assert(attrs0.take(i) =~= attrs0);
    }
    (flats, rest)
}

/// Split the customizations out of `attrs`, in order.
fn split_custom(attrs: Vec<FieldAttr>) -> (r: (Vec<Customization>, Vec<FieldAttr>))
    ensures
        spec_split_custom(attrs.deep_view()) == (r.0.deep_view(), r.1.deep_view()),
{
    let ghost attrs0 = attrs.deep_view();
    let mut remaining = attrs;
    let mut customs: Vec<Customization> = Vec::new();
    let mut kept: Vec<FieldAttr> = Vec::new();
    let ghost n = attrs0.len();
    let ghost mut i: int = 0;
    proof {
        assert(attrs0.take(0) =~= Seq::<FieldAttrV>::empty());
        assert(spec_split_custom(attrs0.take(0)) == (customs.deep_view(), kept.deep_view()));
    }
    while remaining.len() > 0
        invariant
            0 <= i <= n,
            n == attrs0.len(),
            remaining.deep_view() == attrs0.subrange(i, n as int),
            spec_split_custom(attrs0.take(i)) == (customs.deep_view(), kept.deep_view()),
        decreases remaining.len(),
    {
        let ghost customs_pre = customs.deep_view();
        let ghost kept_pre = kept.deep_view();
        let ghost rem_pre = remaining@;
        let ghost rem_deep_pre = remaining.deep_view();
        proof {
            assert(rem_deep_pre.len() == rem_pre.len());
            assert(i < n);
        }
        let a = remaining.remove(0);
        proof {
            assert(a == rem_pre[0]);
            assert(rem_pre[0].deep_view() == rem_deep_pre[0]);
            assert(a@ == attrs0[i]);
            assert(remaining@ == rem_pre.remove(0));
            assert forall|k: int| 0 <= k < remaining@.len() implies remaining.deep_view()[k]
                == attrs0.subrange(i + 1, n as int)[k] by {
                assert(remaining.deep_view()[k] == remaining@[k].deep_view());
                assert(remaining@[k] == rem_pre[k + 1]);
                assert(rem_pre[k + 1].deep_view() == rem_deep_pre[k + 1]);
            }
            assert(remaining.deep_view().len() == remaining@.len());
            assert(remaining.deep_view() =~= attrs0.subrange(i + 1, n as int));
        }
        match a {
            FieldAttr::Custom(c) => {
                customs.push(c);
                proof {
                    assert(customs.deep_view() =~= customs_pre.push(attrs0[i]->Custom_0));
                }
            },
            other => {
                kept.push(other);
                proof {
                    assert(kept.deep_view() =~= kept_pre.push(attrs0[i]));
                }
            },
        }
        proof {
            i = i + 1;
            assert(attrs0.take(i).drop_last() =~= attrs0.take(i - 1));
            assert(attrs0.take(i).last() == attrs0[i - 1]);
        }
    }
    proof {
        assert(remaining.deep_view().len() == remaining@.len());
        assert(i == n);
        assert(attrs0.take(i) =~= attrs0);
    }
    (customs, kept)
}

/// Extract the flattening annotation from one field's annotation list.
///
/// Exactly one flattening annotation with a non-empty path: its keys are
/// returned, the customizations are removed for the chain's leaf, the
/// remaining annotations are kept. No flattening annotation: the list is
/// kept whole and untouched. More than one: `DuplicateAnnotation`, checked
/// before anything else. An empty path: `EmptyPath`.
pub fn extract_annotations(attrs: Vec<FieldAttr>) -> (r: Result<Extraction, GenError>)
    ensures
        match r {
            Ok(ex) => spec_extract(attrs.deep_view()) == Ok::<ExtractionV, GenError>(ex@),
            Err(e) => spec_extract(attrs.deep_view()) == Err::<ExtractionV, GenError>(e),
        },
{
    let (mut flats, rest) = split_flat(attrs);
    proof {
        assert(flats.deep_view().len() == flats@.len());
    }
    if flats.len() == 0 {
        let r = Extraction { path: None, customizations: Vec::new(), kept: rest };
        proof {
            assert(r@.customizations =~= Seq::<CustomizationV>::empty());
        }
        Ok(r)
    } else if flats.len() >= 2 {
        Err(GenError::DuplicateAnnotation)
    } else {
        let ghost flats_deep = flats.deep_view();
        let first = flats.remove(0);
        proof {
            assert(first.deep_view() == flats_deep[0]);
            assert(first.deep_view().len() == first@.len());
        }
        if first.len() == 0 {
            Err(GenError::EmptyPath)
        } else {
            let (customs, kept) = split_custom(rest);
            Ok(Extraction { path: Some(first), customizations: customs, kept })
        }
    }
}

} // verus!
