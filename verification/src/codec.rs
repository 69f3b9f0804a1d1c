//! The runtime meaning of a wrapper chain.
//!
//! A chain of single-field wrapper links does exactly one thing on the
//! wire: on encode it nests the field's (already host-encoded) value under
//! the chain's keys, one single-key object per link; on decode it unwraps
//! those objects again, key by key, and hands back the bare value. This
//! module gives that meaning over an abstract document [`Value`], together
//! with the adapter pair and the proofs that the two directions compose:
//! decoding what was encoded returns the original value, whatever it was.
//!
//! A `skip if default` leaf customization omits the innermost key only;
//! every outer nesting level is still produced.

use crate::model::ChainSpec;
use crate::model::ChainSpecV;
use crate::model::Customization;
use crate::model::CustomizationV;
use vstd::prelude::*;

verus! {

/// An abstract serialized document: either an opaque scalar (standing for
/// whatever the host framework encoded a field value to) or an object of
/// key/value entries in order.
#[derive(Debug, PartialEq, Eq)]
pub enum Value {
    Leaf(u64),
    Obj(Vec<(String, Value)>),
}

/// Why decoding through a chain failed. A failure at any link aborts the
/// whole decode; nothing is recovered partially.
#[derive(Clone, Copy, Debug, PartialEq, Eq, Structural)]
pub enum DecodeError {
    /// A nesting level was not an object.
    NotAnObject,
    /// The expected key was absent at its nesting level.
    MissingKey,
}

/// `wrapped` is exactly `inner` nested under `keys`, outermost first: one
/// object per key, each with that key as its only entry, and nothing else
/// at any level.
pub open spec fn is_nest_of(keys: Seq<Seq<char>>, inner: Value, wrapped: Value) -> bool
    decreases keys.len(),
{
    if keys.len() == 0 {
        wrapped == inner
    } else {
        &&& wrapped matches Value::Obj(entries)
        &&& entries@.len() == 1
        &&& entries@[0].0@ == keys[0]
        &&& is_nest_of(keys.drop_first(), inner, entries@[0].1)
    }
}

/// `wrapped` is the nesting for `keys` with the innermost key omitted: the
/// outer `keys.len() - 1` levels are single-key objects as in [`is_nest_of`],
/// and the level that would hold the last key is an empty object.
pub open spec fn is_hollow_nest(keys: Seq<Seq<char>>, wrapped: Value) -> bool
    decreases keys.len(),
{
    if keys.len() <= 1 {
        wrapped matches Value::Obj(entries) && entries@.len() == 0
    } else {
        &&& wrapped matches Value::Obj(entries)
        &&& entries@.len() == 1
        &&& entries@[0].0@ == keys[0]
        &&& is_hollow_nest(keys.drop_first(), entries@[0].1)
    }
}

/// The value of the first entry named `key`, if any.
pub open spec fn spec_lookup(entries: Seq<(String, Value)>, key: Seq<char>) -> Option<Value>
    decreases entries.len(),
{
    if entries.len() == 0 {
        None
    } else if entries[0].0@ == key {
        Some(entries[0].1)
    } else {
        spec_lookup(entries.drop_first(), key)
    }
}

/// What decoding through a chain returns: descend `keys` in order, looking
/// each key up in the object at its level, and return the value under the
/// last key. A non-object level fails with `NotAnObject`, an absent key
/// with `MissingKey`, and the failure propagates unchanged.
pub open spec fn spec_strip(keys: Seq<Seq<char>>, v: Value) -> Result<Value, DecodeError>
    decreases keys.len(),
{
    if keys.len() == 0 {
        Ok(v)
    } else {
        match v {
            Value::Leaf(_) => Err(DecodeError::NotAnObject),
            Value::Obj(entries) => match spec_lookup(entries@, keys[0]) {
                None => Err(DecodeError::MissingKey),
                Some(inner) => spec_strip(keys.drop_first(), inner),
            },
        }
    }
}

/// Whether a skip customization is among `customizations`.
pub open spec fn spec_has_skip(customizations: Seq<CustomizationV>) -> bool {
    exists|i: int| 0 <= i < customizations.len() && customizations[i] is SkipIf
}

/// Whether the entry for this chain's field is omitted entirely, or its
/// innermost key left out, on encode: only when a `skip if default`
/// customization sits on the leaf and the leaf value is the default.
pub open spec fn spec_omits_leaf(chain: ChainSpecV, predicate_holds: bool) -> bool {
    spec_has_skip(chain.leaf_customizations) && predicate_holds
}

/// Nest `inner` under the first `upto` keys of `keys`, outermost first.
fn wrap_levels(keys: &Vec<String>, upto: usize, inner: Value) -> (r: Value)
    requires
        upto <= keys.len(),
    ensures
        is_nest_of(keys.deep_view().take(upto as int), inner, r),
{
    let ghost inner0 = inner;
    let mut v = inner;
    let mut i = upto;
    while i > 0
        invariant
            i <= upto <= keys.len(),
            is_nest_of(keys.deep_view().subrange(i as int, upto as int), inner0, v),
        decreases i,
    {
        i = i - 1;
        let key = keys[i].clone();
        let mut entries: Vec<(String, Value)> = Vec::new();
        entries.push((key, v));
        v = Value::Obj(entries);
        proof {
            assert(keys.deep_view().subrange(i as int, upto as int).drop_first() =~= keys
                .deep_view()
                .subrange(i + 1, upto as int));
        }
    }
    proof {
        assert(keys.deep_view().subrange(0, upto as int) =~= keys.deep_view().take(upto as int));
    }
    v
}

/// The serialize adapter of a chain without leaf omission: wrap the
/// host-encoded value `inner` in one single-key object per key of `keys`,
/// outermost first.
pub fn encode_chain(keys: &Vec<String>, inner: Value) -> (r: Value)
    ensures
        is_nest_of(keys.deep_view(), inner, r),
{
    let n = keys.len();
    let r = wrap_levels(keys, n, inner);
    proof {
        assert(keys.deep_view().take(keys.deep_view().len() as int) =~= keys.deep_view());
    }
    r
}

/// Whether a `skip if default` customization is present.
pub fn has_skip_customization(customizations: &Vec<Customization>) -> (r: bool)
    ensures
        r == spec_has_skip(customizations.deep_view()),
{
    let mut i: usize = 0;
    while i < customizations.len()
        invariant
            i <= customizations.len(),
            forall|j: int| 0 <= j < i ==> !(customizations.deep_view()[j] is SkipIf),
        decreases customizations.len() - i,
    {
        let is_skip = match &customizations[i] {
            Customization::SkipIf(_) => true,
            _ => false,
        };
        if is_skip {
            proof {
                assert(customizations.deep_view()[i as int] is SkipIf);
            }
            return true;
        }
        proof {
            assert(!(customizations.deep_view()[i as int] is SkipIf));
        }
        i = i + 1;
    }
    false
}

/// Relates the levels built by [`wrap_levels`] around an empty object to
/// the hollow nesting shape: all levels but the innermost, which stays an
/// empty object.
proof fn lemma_hollow_from_levels(keys: Seq<Seq<char>>, empty: Value, v: Value)
    requires
        keys.len() >= 1,
        empty matches Value::Obj(entries) && entries@.len() == 0,
        is_nest_of(keys.take(keys.len() - 1), empty, v),
    ensures
        is_hollow_nest(keys, v),
    decreases keys.len(),
{
    if keys.len() == 1 {
        assert(keys.take(0).len() == 0);
    } else {
        let sub = keys.take(keys.len() - 1);
        match v {
            Value::Obj(entries) => {
                assert(sub.drop_first() =~= keys.drop_first().take(keys.drop_first().len() - 1));
                lemma_hollow_from_levels(keys.drop_first(), empty, entries@[0].1);
            },
            Value::Leaf(_) => {
                assert(false);
            },
        }
    }
}

/// The serialize adapter for one flattened field: the key/value entry the
/// field contributes to its record's (or variant's) serialized object, or
/// `None` when the whole entry is omitted. `predicate_holds` is the host
/// framework's verdict of the skip customization's predicate on the field's
/// value; with `skip if default`, whether the value is its type's default.
///
/// Without leaf omission the entry is the first path key over the value
/// nested under the remaining keys. With omission and a non-empty rest the
/// entry keeps every outer level and only the innermost key is left out;
/// with omission and no remaining keys the entry disappears entirely.
pub fn encode_field(chain: &ChainSpec, leaf: Value, predicate_holds: bool) -> (r: Option<
    (String, Value),
>)
    ensures
        !spec_omits_leaf(chain@, predicate_holds) ==> (r matches Some(entry) && entry.0@
            == chain@.first_key && is_nest_of(chain@.rest_keys, leaf, entry.1)),
        spec_omits_leaf(chain@, predicate_holds) && chain@.rest_keys.len() == 0 ==> r is None,
        spec_omits_leaf(chain@, predicate_holds) && chain@.rest_keys.len() >= 1 ==> (r matches Some(
            entry,
        ) && entry.0@ == chain@.first_key && is_hollow_nest(chain@.rest_keys, entry.1)),
{
    let omit = has_skip_customization(&chain.leaf_customizations) && predicate_holds;
    if !omit {
        let wrapped = encode_chain(&chain.rest_keys, leaf);
        Some((chain.first_key.clone(), wrapped))
    } else if chain.rest_keys.len() == 0 {
        None
    } else {
        let empty: Value = Value::Obj(Vec::new());
        let ghost empty0 = empty;
        let hollow = wrap_levels(&chain.rest_keys, chain.rest_keys.len() - 1, empty);
        proof {
            lemma_hollow_from_levels(chain@.rest_keys, empty0, hollow);
        }
        Some((chain.first_key.clone(), hollow))
    }
}

/// The first index whose entry is named `key`, if any.
fn find_key(entries: &Vec<(String, Value)>, key: &String) -> (r: Option<usize>)
    ensures
        match r {
            Some(j) => j < entries.len() && entries@[j as int].0@ == key@ && (forall|jj: int|
                0 <= jj < j ==> entries@[jj].0@ != key@),
            None => forall|jj: int| 0 <= jj < entries@.len() ==> entries@[jj].0@ != key@,
        },
{
    let mut j: usize = 0;
    while j < entries.len()
        invariant
            j <= entries.len(),
            forall|jj: int| 0 <= jj < j ==> entries@[jj].0@ != key@,
        decreases entries.len() - j,
    {
        if entries[j].0.eq(key) {
            return Some(j);
        }
        j = j + 1;
    }
    None
}

/// [`spec_lookup`] returns the first entry whose name matches.
proof fn lemma_lookup_first(entries: Seq<(String, Value)>, key: Seq<char>, j: int)
    requires
        0 <= j < entries.len(),
        entries[j].0@ == key,
        forall|jj: int| 0 <= jj < j ==> entries[jj].0@ != key,
    ensures
        spec_lookup(entries, key) == Some(entries[j].1),
    decreases j,
{
    if j > 0 {
        lemma_lookup_first(entries.drop_first(), key, j - 1);
    }
}

/// [`spec_lookup`] finds nothing when no entry's name matches.
proof fn lemma_lookup_none(entries: Seq<(String, Value)>, key: Seq<char>)
    requires
        forall|jj: int| 0 <= jj < entries.len() ==> entries[jj].0@ != key,
    ensures
        spec_lookup(entries, key) is None,
    decreases entries.len(),
{
    if entries.len() > 0 {
        lemma_lookup_none(entries.drop_first(), key);
    }
}

/// The deserialize adapter of a chain: unwrap `v` along `keys`, outermost
/// first, and return the value under the last key; any failure propagates
/// unchanged.
pub fn decode_chain(keys: &Vec<String>, v: Value) -> (r: Result<Value, DecodeError>)
    ensures
        r == spec_strip(keys.deep_view(), v),
{
    let ghost keysv = keys.deep_view();
    let mut cur = v;
    let mut i: usize = 0;
    proof {
        assert(keysv.subrange(0, keysv.len() as int) =~= keysv);
    }
    while i < keys.len()
        invariant
            i <= keys.len(),
            keysv == keys.deep_view(),
            spec_strip(keys.deep_view(), v) == spec_strip(
                keysv.subrange(i as int, keysv.len() as int),
                cur,
            ),
        decreases keys.len() - i,
    {
        let ghost cur0 = cur;
        let ghost sub = keysv.subrange(i as int, keysv.len() as int);
        match cur {
            Value::Leaf(n) => {
                proof {
                    assert(spec_strip(sub, cur0) == Err::<Value, DecodeError>(
                        DecodeError::NotAnObject,
                    ));
                }
                return Err(DecodeError::NotAnObject);
            },
            Value::Obj(mut entries) => {
                let ghost entries0 = entries@;
                match find_key(&entries, &keys[i]) {
                    None => {
                        proof {
                            lemma_lookup_none(entries0, keysv[i as int]);
                        }
                        return Err(DecodeError::MissingKey);
                    },
                    Some(j) => {
                        let pair = entries.remove(j);
                        proof {
                            lemma_lookup_first(entries0, keysv[i as int], j as int);
                            assert(sub.drop_first() =~= keysv.subrange(
                                i + 1,
                                keysv.len() as int,
                            ));
                        }
                        cur = pair.1;
                        i = i + 1;
                    },
                }
            },
        }
    }
    proof {
        assert(keysv.subrange(i as int, keysv.len() as int).len() == 0);
    }
    Ok(cur)
}

/// What decoding one flattened field from its record's serialized object
/// returns: look the first path key up there, then unwrap the remaining
/// keys.
pub open spec fn spec_decode_field(chain: ChainSpecV, v: Value) -> Result<Value, DecodeError> {
    match v {
        Value::Leaf(_) => Err(DecodeError::NotAnObject),
        Value::Obj(entries) => match spec_lookup(entries@, chain.first_key) {
            None => Err(DecodeError::MissingKey),
            Some(inner) => spec_strip(chain.rest_keys, inner),
        },
    }
}

/// The deserialize adapter for one flattened field: `v` is the record's (or
/// variant's) whole serialized object; the result is the bare value that
/// was nested under the field's path, or the first failure on the way down.
pub fn decode_field(chain: &ChainSpec, v: Value) -> (r: Result<Value, DecodeError>)
    ensures
        r == spec_decode_field(chain@, v),
{
    match v {
        Value::Leaf(n) => Err(DecodeError::NotAnObject),
        Value::Obj(mut entries) => {
            let ghost entries0 = entries@;
            match find_key(&entries, &chain.first_key) {
                None => {
                    proof {
                        lemma_lookup_none(entries0, chain@.first_key);
                    }
                    Err(DecodeError::MissingKey)
                },
                Some(j) => {
                    let pair = entries.remove(j);
                    proof {
                        lemma_lookup_first(entries0, chain@.first_key, j as int);
                    }
                    decode_chain(&chain.rest_keys, pair.1)
                },
            }
        },
    }
}

/// Round trip through one chain: whatever value was nested under `keys` —
/// scalar or object, any content — unwrapping those keys returns exactly
/// that value.
pub proof fn lemma_chain_round_trip(keys: Seq<Seq<char>>, inner: Value, wrapped: Value)
    requires
        is_nest_of(keys, inner, wrapped),
    ensures
        spec_strip(keys, wrapped) == Ok::<Value, DecodeError>(inner),
    decreases keys.len(),
{
    if keys.len() > 0 {
        match wrapped {
            Value::Obj(entries) => {
                lemma_chain_round_trip(keys.drop_first(), inner, entries@[0].1);
            },
            Value::Leaf(_) => {
                assert(false);
            },
        }
    }
}

/// The nesting shape, level by level: inside a value nested under `keys`,
/// unwrapping any proper prefix of the keys reaches an object with exactly
/// one entry, and that entry is named by the next key — no extra keys at
/// any level, and the bare value sits under the last key alone.
pub proof fn lemma_nest_shape(keys: Seq<Seq<char>>, inner: Value, wrapped: Value, depth: int)
    requires
        is_nest_of(keys, inner, wrapped),
        0 <= depth < keys.len(),
    ensures
        spec_strip(keys.take(depth), wrapped) matches Ok(w) && (w matches Value::Obj(entries)
            && entries@.len() == 1 && entries@[0].0@ == keys[depth]),
    decreases depth,
{
    if depth == 0 {
        assert(keys.take(0).len() == 0);
    } else {
        match wrapped {
            Value::Obj(entries) => {
                let inner_wrapped = entries@[0].1;
                lemma_nest_shape(keys.drop_first(), inner, inner_wrapped, depth - 1);
                let pre = keys.take(depth);
                lemma_lookup_first(entries@, keys[0], 0);
                assert(pre.drop_first() =~= keys.drop_first().take(depth - 1));
                assert(spec_lookup(entries@, pre[0]) == Some(inner_wrapped));
            },
            Value::Leaf(_) => {
                assert(false);
            },
        }
    }
}

/// Round trip for one flattened field: decoding an object that holds the
/// encoded entry of that field returns the original leaf value.
pub proof fn lemma_field_round_trip(
    chain: ChainSpecV,
    leaf: Value,
    entry: (String, Value),
    entries: Vec<(String, Value)>,
)
    requires
        entry.0@ == chain.first_key,
        is_nest_of(chain.rest_keys, leaf, entry.1),
        entries@ == seq![entry],
    ensures
        spec_decode_field(chain, Value::Obj(entries)) == Ok::<Value, DecodeError>(leaf),
{
    lemma_chain_round_trip(chain.rest_keys, leaf, entry.1);
}

/// A hollow nesting omits exactly the innermost key: unwrapping the full
/// path fails at that key with `MissingKey`, while unwrapping every outer
/// level succeeds and reaches the empty object where the key would sit.
pub proof fn lemma_skip_omits_only_leaf(keys: Seq<Seq<char>>, v: Value)
    requires
        keys.len() >= 1,
        is_hollow_nest(keys, v),
    ensures
        spec_strip(keys, v) == Err::<Value, DecodeError>(DecodeError::MissingKey),
        spec_strip(keys.take(keys.len() - 1), v) matches Ok(w) && (w matches Value::Obj(entries)
            && entries@.len() == 0),
    decreases keys.len(),
{
    if keys.len() == 1 {
        match v {
            Value::Obj(entries) => {
                assert(spec_lookup(entries@, keys[0]) is None);
                assert(keys.take(0).len() == 0);
            },
            Value::Leaf(_) => {
                assert(false);
            },
        }
    } else {
        match v {
            Value::Obj(entries) => {
                lemma_lookup_first(entries@, keys[0], 0);
                lemma_skip_omits_only_leaf(keys.drop_first(), entries@[0].1);
                let pre = keys.take(keys.len() - 1);
                assert(pre.drop_first() =~= keys.drop_first().take(keys.drop_first().len() - 1));
                assert(spec_lookup(entries@, pre[0]) == Some(entries@[0].1));
            },
            Value::Leaf(_) => {
                assert(false);
            },
        }
    }
}

} // verus!
