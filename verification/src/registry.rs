//! The function type registry: an immutable-after-construction mapping from
//! registry keys to registry values, built once from export metadata and
//! queried during call resolution.
//!
//! The mapping is held as a vector of key/value entries whose key views are
//! pairwise distinct; its view is the mathematical map the entries denote,
//! with later entries overwriting earlier ones with an equal key.

use vstd::prelude::*;
use vstd::pervasive::VecAdditionalExecFns;
use crate::types::{AnalysedType, TypeVariant, TypeView, CaseView, NameTypePair, type_view, types_view,
    cases_view, case_view, fields_view, field_view, names_view, clone_type, clone_variant, type_eq,
    lemma_types_view, lemma_cases_view, lemma_fields_view};
use crate::exports::{AnalysedExport, AnalysedFunctionParameter, AnalysedFunctionResult,
    exports_view, functions_view, params_view, results_view};
use crate::call_type::CallType;
use crate::keys::{RegistryKey, RegistryValue, KeyView, ValueView, key_of_call, key_eq, clone_key,
    clone_value};
use crate::model::{registry_of, flat_entries, instance_entries, function_entry,
    collect_types, add_functions_types, add_param_types, add_result_types, add_type,
    param_types, result_types, expand_type, expand_types, expand_fields, register_cases,
    register_enum_cases, case_entry};

verus! {

/// The map denoted by a sequence of key/value entries: entries are folded in
/// order, so a later entry with an equal key overwrites an earlier one.
spec fn entries_map(s: Seq<(RegistryKey, RegistryValue)>) -> Map<KeyView, ValueView>
    decreases s.len(),
{
    if s.len() == 0 {
        Map::empty()
    } else {
        entries_map(s.drop_last()).insert(s.last().0@, s.last().1@)
    }
}

/// Well-formedness of an entry sequence: the key views are pairwise
/// distinct, so each entry is live in the denoted map.
spec fn entries_wf(s: Seq<(RegistryKey, RegistryValue)>) -> bool {
    forall|i: int, j: int| 0 <= i < j < s.len() ==> (#[trigger] s[i]).0@ != (#[trigger] s[j]).0@
}

/// In a well-formed entry sequence, every entry is live in the denoted map,
/// and every key of the map comes from some entry.
proof fn lemma_entries_map_complete(s: Seq<(RegistryKey, RegistryValue)>)
    requires
        entries_wf(s),
    ensures
        forall|i: int| 0 <= i < s.len() ==> entries_map(s).contains_key((#[trigger] s[i]).0@),
        forall|i: int| 0 <= i < s.len() ==> entries_map(s)[(#[trigger] s[i]).0@] == s[i].1@,
        forall|k: KeyView| #[trigger] entries_map(s).contains_key(k) ==> exists|i: int|
            0 <= i < s.len() && (#[trigger] s[i]).0@ == k,
    decreases s.len(),
{
    if s.len() > 0 {
        assert(entries_wf(s.drop_last()));
        lemma_entries_map_complete(s.drop_last());
        assert forall|i: int| 0 <= i < s.len() implies entries_map(s).contains_key(
            (#[trigger] s[i]).0@,
        ) && entries_map(s)[s[i].0@] == s[i].1@ by {
            if i < s.len() - 1 {
                assert(s.drop_last()[i] == s[i]);
                assert(entries_map(s.drop_last()).contains_key(s[i].0@));
                assert(entries_map(s.drop_last())[s[i].0@] == s[i].1@);
                assert(s[i].0@ != s[s.len() - 1].0@);
            }
        }
        assert forall|k: KeyView| #[trigger] entries_map(s).contains_key(k) implies exists|i: int|
            0 <= i < s.len() && (#[trigger] s[i]).0@ == k by {
            if k == s.last().0@ {
                assert((s[s.len() - 1]).0@ == k);
            } else {
                assert(entries_map(s.drop_last()).contains_key(k));
                let i = choose|i: int|
                    0 <= i < s.drop_last().len() && (#[trigger] s.drop_last()[i]).0@ == k;
                assert((s[i]).0@ == k);
            }
        }
    }
}

/// Replacing the entry whose key view equals the new pair's key view updates
/// the denoted map exactly as an insert, and keeps the sequence well-formed.
proof fn lemma_entries_map_update(
    s: Seq<(RegistryKey, RegistryValue)>,
    i: int,
    p: (RegistryKey, RegistryValue),
)
    requires
        entries_wf(s),
        0 <= i < s.len(),
        s[i].0@ == p.0@,
    ensures
        entries_wf(s.update(i, p)),
        entries_map(s.update(i, p)) == entries_map(s).insert(p.0@, p.1@),
    decreases s.len(),
{
    let s2 = s.update(i, p);
    assert forall|a: int, b: int| 0 <= a < b < s2.len() implies (#[trigger] s2[a]).0@
        != (#[trigger] s2[b]).0@ by {
        assert(s[a].0@ != s[b].0@);
    }
    if i == s.len() - 1 {
        assert(s2.drop_last() =~= s.drop_last());
        assert(entries_map(s2) =~= entries_map(s).insert(p.0@, p.1@));
    } else {
        assert(entries_wf(s.drop_last()));
        assert(s2.drop_last() =~= s.drop_last().update(i, p));
        lemma_entries_map_update(s.drop_last(), i, p);
        assert(s.last().0@ != p.0@);
        assert(s2.last() == s.last());
        assert(entries_map(s2) =~= entries_map(s).insert(p.0@, p.1@));
    }
}

/// Entry sequences with pairwise equal key and value views denote the same
/// map and are equally well-formed.
proof fn lemma_entries_map_congruence(
    s1: Seq<(RegistryKey, RegistryValue)>,
    s2: Seq<(RegistryKey, RegistryValue)>,
)
    requires
        s1.len() == s2.len(),
        forall|i: int| 0 <= i < s1.len() ==> (#[trigger] s1[i]).0@ == (#[trigger] s2[i]).0@
            && s1[i].1@ == s2[i].1@,
    ensures
        entries_map(s1) == entries_map(s2),
        entries_wf(s1) == entries_wf(s2),
    decreases s1.len(),
{
    if s1.len() > 0 {
        lemma_entries_map_congruence(s1.drop_last(), s2.drop_last());
        assert(entries_map(s1) =~= entries_map(s2));
    }
    if entries_wf(s1) {
        assert forall|a: int, b: int| 0 <= a < b < s2.len() implies (#[trigger] s2[a]).0@
            != (#[trigger] s2[b]).0@ by {
            assert(s1[a].0@ != s1[b].0@);
        }
    }
    if entries_wf(s2) {
        assert forall|a: int, b: int| 0 <= a < b < s1.len() implies (#[trigger] s1[a]).0@
            != (#[trigger] s1[b]).0@ by {
            assert(s2[a].0@ != s2[b].0@);
        }
    }
    assert(entries_wf(s1) == entries_wf(s2));
}

/// The index of the entry with the given key view, if one exists.
fn find_key(entries: &Vec<(RegistryKey, RegistryValue)>, key: &RegistryKey) -> (r: Option<usize>)
    ensures
        match r {
            Some(i) => i < entries@.len() && entries@[i as int].0@ == key@,
            None => forall|j: int| 0 <= j < entries@.len() ==> (#[trigger] entries@[j]).0@ != key@,
        },
{
    let mut i: usize = 0;
    while i < entries.len()
        invariant
            i <= entries@.len(),
            forall|j: int| 0 <= j < i ==> (#[trigger] entries@[j]).0@ != key@,
        decreases entries@.len() - i,
    {
        if key_eq(&entries[i].0, key) {
            return Some(i);
        }
        i += 1;
    }
    None
}

/// Inserts a key/value pair into a well-formed entry sequence: the live
/// entry with an equal key is replaced if there is one, else the pair is
/// appended.  The denoted map gains exactly this binding.
fn vec_insert(
    entries: &mut Vec<(RegistryKey, RegistryValue)>,
    key: RegistryKey,
    value: RegistryValue,
)
    requires
        entries_wf(old(entries)@),
    ensures
        entries_wf(final(entries)@),
        entries_map(final(entries)@) == entries_map(old(entries)@).insert(key@, value@),
{
    let found = find_key(entries, &key);
    match found {
        Some(i) => {
            let ghost s = entries@;
            let pair = (key, value);
            proof {
                lemma_entries_map_update(s, i as int, pair);
            }
            entries.set(i, pair);
        }
        None => {
            let ghost s = entries@;
            entries.push((key, value));
            proof {
                assert(entries@.drop_last() =~= s);
                assert forall|a: int, b: int| 0 <= a < b < entries@.len() implies
                    (#[trigger] entries@[a]).0@ != (#[trigger] entries@[b]).0@ by {
                    if b < s.len() {
                        assert(s[a].0@ != s[b].0@);
                    } else {
                        assert(entries@[b] == entries@.last());
                        assert(s[a].0@ != entries@.last().0@);
                    }
                }
            }
        }
    }
}

/// Registers, in `registry`, every variant and enum case reachable from
/// `ty` by the recursive walk: cases of a variant or enum met at this level
/// are registered under their bare names; tuples, lists, records, options
/// and results are walked into; leaves contribute nothing.
fn update_registry(ty: &AnalysedType, registry: &mut Vec<(RegistryKey, RegistryValue)>)
    requires
        entries_wf(old(registry)@),
    ensures
        entries_wf(final(registry)@),
        entries_map(final(registry)@) == expand_type(entries_map(old(registry)@), type_view(*ty)),
    decreases *ty,
{
    let ghost m0 = entries_map(registry@);
    match ty {
        AnalysedType::Variant(tv) => {
            let ghost whole = type_view(*ty);
            let ghost all = cases_view(tv.cases@);
            proof {
                lemma_cases_view(tv.cases@);
            }
            let mut i: usize = 0;
            while i < tv.cases.len()
                invariant
                    entries_wf(registry@),
                    i <= tv.cases@.len(),
                    all == cases_view(tv.cases@),
                    whole == type_view(*ty),
                    whole == (TypeView::Variant { cases: all }),
                    all.len() == tv.cases@.len(),
                    forall|j: int| 0 <= j < tv.cases@.len() ==> all[j] == case_view(tv.cases@[j]),
                    entries_map(registry@) == register_cases(m0, whole, all, all.take(i as int)),
                decreases tv.cases@.len() - i,
            {
                let c = &tv.cases[i];
                let key = RegistryKey::FunctionName(c.name.clone());
                let value: RegistryValue = match &c.typ {
                    Some(payload) => {
                        let mut pts: Vec<AnalysedType> = Vec::new();
                        pts.push(clone_type(payload));
                        proof {
                            lemma_types_view(pts@);
                            assert(types_view(pts@) =~= seq![type_view(*payload)]);
                        }
                        RegistryValue::Variant {
                            parameter_types: pts,
                            variant_type: clone_variant(tv),
                        }
                    }
                    None => RegistryValue::Value(clone_type(ty)),
                };
                proof {
                    assert(value@ =~= case_entry(whole, all, all[i as int]));
                    assert(key@ == (KeyView::FunctionName { name: all[i as int].name }));
                    assert(all.take(i as int + 1).drop_last() =~= all.take(i as int));
                    assert(all.take(i as int + 1).last() == all[i as int]);
                }
                vec_insert(registry, key, value);
                i += 1;
            }
            proof {
                assert(all.take(all.len() as int) =~= all);
            }
        }
        AnalysedType::Enum(names) => {
            let ghost whole = type_view(*ty);
            let ghost all = names_view(names@);
            let mut i: usize = 0;
            while i < names.len()
                invariant
                    entries_wf(registry@),
                    i <= names@.len(),
                    all == names_view(names@),
                    whole == type_view(*ty),
                    whole == (TypeView::Enum { names: all }),
                    all.len() == names@.len(),
                    entries_map(registry@) == register_enum_cases(m0, whole, all.take(i as int)),
                decreases names@.len() - i,
            {
                let key = RegistryKey::FunctionName(names[i].clone());
                let value = RegistryValue::Value(clone_type(ty));
                proof {
                    assert(value@ == (ValueView::Value { typ: whole }));
                    assert(key@ == (KeyView::FunctionName { name: all[i as int] }));
                    assert(all.take(i as int + 1).drop_last() =~= all.take(i as int));
                    assert(all.take(i as int + 1).last() == all[i as int]);
                }
                vec_insert(registry, key, value);
                i += 1;
            }
            proof {
                assert(all.take(all.len() as int) =~= all);
            }
        }
        AnalysedType::Tuple(items) => {
            update_registry_types(items, registry);
        }
        AnalysedType::Record(fields) => {
            update_registry_fields(fields, registry);
        }
        AnalysedType::List(inner) => {
            update_registry(inner, registry);
        }
        AnalysedType::Option(inner) => {
            update_registry(inner, registry);
        }
        AnalysedType::Result { ok, err } => {
            match ok {
                Some(b) => update_registry(b, registry),
                None => {}
            }
            match err {
                Some(b) => update_registry(b, registry),
                None => {}
            }
        }
        AnalysedType::Flags(_) => {}
        AnalysedType::Str => {}
        AnalysedType::Chr => {}
        AnalysedType::F64 => {}
        AnalysedType::F32 => {}
        AnalysedType::U64 => {}
        AnalysedType::S64 => {}
        AnalysedType::U32 => {}
        AnalysedType::S32 => {}
        AnalysedType::U16 => {}
        AnalysedType::S16 => {}
        AnalysedType::U8 => {}
        AnalysedType::S8 => {}
        AnalysedType::Bool => {}
        AnalysedType::Handle { .. } => {}
    }
}


/// Expands each element type of a tuple, left to right.
fn update_registry_types(items: &Vec<AnalysedType>, registry: &mut Vec<(RegistryKey, RegistryValue)>)
    requires
        entries_wf(old(registry)@),
    ensures
        entries_wf(final(registry)@),
        entries_map(final(registry)@) == expand_types(
            entries_map(old(registry)@),
            types_view(items@),
        ),
    decreases items@,
{
    let ghost m0 = entries_map(registry@);
    let ghost tvs = types_view(items@);
    proof {
        lemma_types_view(items@);
    }
    let mut i: usize = 0;
    while i < items.len()
        invariant
            entries_wf(registry@),
            i <= items@.len(),
            tvs == types_view(items@),
            tvs.len() == items@.len(),
            forall|j: int| 0 <= j < items@.len() ==> tvs[j] == type_view(items@[j]),
            entries_map(registry@) == expand_types(m0, tvs.take(i as int)),
        decreases items@.len() - i,
    {
        update_registry(&items[i], registry);
        proof {
            assert(tvs.take(i as int + 1).drop_last() =~= tvs.take(i as int));
            assert(tvs.take(i as int + 1).last() == tvs[i as int]);
        }
        i += 1;
    }
    proof {
        assert(tvs.take(tvs.len() as int) =~= tvs);
    }
}

/// Expands the type of each record field, left to right.
fn update_registry_fields(
    fields: &Vec<NameTypePair>,
    registry: &mut Vec<(RegistryKey, RegistryValue)>,
)
    requires
        entries_wf(old(registry)@),
    ensures
        entries_wf(final(registry)@),
        entries_map(final(registry)@) == expand_fields(
            entries_map(old(registry)@),
            fields_view(fields@),
        ),
    decreases fields@,
{
    let ghost m0 = entries_map(registry@);
    let ghost fvs = fields_view(fields@);
    proof {
        lemma_fields_view(fields@);
    }
    let mut i: usize = 0;
    while i < fields.len()
        invariant
            entries_wf(registry@),
            i <= fields@.len(),
            fvs == fields_view(fields@),
            fvs.len() == fields@.len(),
            forall|j: int| 0 <= j < fields@.len() ==> fvs[j] == field_view(fields@[j]),
            entries_map(registry@) == expand_fields(m0, fvs.take(i as int)),
        decreases fields@.len() - i,
    {
        update_registry(&fields[i].typ, registry);
        proof {
            assert(fvs.take(i as int + 1).drop_last() =~= fvs.take(i as int));
            assert(fvs.take(i as int + 1).last() == fvs[i as int]);
        }
        i += 1;
    }
    proof {
        assert(fvs.take(fvs.len() as int) =~= fvs);
    }
}

/// Adds a type to the list of top-level types to expand, unless a
/// structurally equal one was already collected.
fn add_type_to_set(types: &mut Vec<AnalysedType>, t: &AnalysedType)
    ensures
        types_view(final(types)@) == add_type(types_view(old(types)@), type_view(*t)),
{
    let ghost s0 = types@;
    let ghost tv0 = types_view(types@);
    proof {
        lemma_types_view(types@);
    }
    let mut i: usize = 0;
    while i < types.len()
        invariant
            types@ == s0,
            tv0 == types_view(s0),
            tv0.len() == s0.len(),
            forall|j: int| 0 <= j < s0.len() ==> tv0[j] == type_view(s0[j]),
            i <= s0.len(),
            forall|j: int| 0 <= j < i ==> tv0[j] != type_view(*t),
        decreases s0.len() - i,
    {
        if type_eq(&types[i], t) {
            proof {
                assert(tv0[i as int] == type_view(*t));
                assert(tv0.contains(type_view(*t)));
            }
            return;
        }
        i += 1;
    }
    proof {
        assert(!tv0.contains(type_view(*t)));
    }
    types.push(clone_type(t));
    proof {
        assert(types@.drop_last() =~= s0);
        assert(types_view(types@) =~= tv0.push(type_view(*t)));
    }
}

/// Copies a function's parameter types, in order, and collects each into the
/// list of top-level types to expand.
fn collect_params(
    params: &Vec<AnalysedFunctionParameter>,
    types: &mut Vec<AnalysedType>,
) -> (r: Vec<AnalysedType>)
    ensures
        types_view(final(types)@) == add_param_types(
            types_view(old(types)@),
            params_view(params@),
        ),
        types_view(r@) == param_types(params_view(params@)),
{
    let ghost t0 = types_view(types@);
    let ghost pv = params_view(params@);
    let mut out: Vec<AnalysedType> = Vec::new();
    let mut i: usize = 0;
    while i < params.len()
        invariant
            i <= params@.len(),
            pv == params_view(params@),
            pv.len() == params@.len(),
            types_view(types@) == add_param_types(t0, pv.take(i as int)),
            out@.len() == i,
            forall|j: int| 0 <= j < i ==> type_view(out@[j]) == pv[j].typ,
        decreases params@.len() - i,
    {
        proof {
            assert(pv.take(i as int + 1).drop_last() =~= pv.take(i as int));
            assert(pv.take(i as int + 1).last() == pv[i as int]);
            assert(pv[i as int] == crate::exports::param_view(params@[i as int]));
        }
        let t = &params[i].typ;
        add_type_to_set(types, t);
        out.push(clone_type(t));
        i += 1;
    }
    proof {
        assert(pv.take(pv.len() as int) =~= pv);
        lemma_types_view(out@);
        assert(types_view(out@) =~= param_types(pv));
    }
    out
}

/// Copies a function's return types, in order, and collects each into the
/// list of top-level types to expand.
fn collect_results(
    results: &Vec<AnalysedFunctionResult>,
    types: &mut Vec<AnalysedType>,
) -> (r: Vec<AnalysedType>)
    ensures
        types_view(final(types)@) == add_result_types(
            types_view(old(types)@),
            results_view(results@),
        ),
        types_view(r@) == result_types(results_view(results@)),
{
    let ghost t0 = types_view(types@);
    let ghost rv = results_view(results@);
    let mut out: Vec<AnalysedType> = Vec::new();
    let mut i: usize = 0;
    while i < results.len()
        invariant
            i <= results@.len(),
            rv == results_view(results@),
            rv.len() == results@.len(),
            types_view(types@) == add_result_types(t0, rv.take(i as int)),
            out@.len() == i,
            forall|j: int| 0 <= j < i ==> type_view(out@[j]) == rv[j].typ,
        decreases results@.len() - i,
    {
        proof {
            assert(rv.take(i as int + 1).drop_last() =~= rv.take(i as int));
            assert(rv.take(i as int + 1).last() == rv[i as int]);
            assert(rv[i as int] == crate::exports::result_view(results@[i as int]));
        }
        let t = &results[i].typ;
        add_type_to_set(types, t);
        out.push(clone_type(t));
        i += 1;
    }
    proof {
        assert(rv.take(rv.len() as int) =~= rv);
        lemma_types_view(out@);
        assert(types_view(out@) =~= result_types(rv));
    }
    out
}

/// Whether some key of `m` is bound to a `Variant` entry carrying the
/// variant type `v`.
pub open spec fn registry_variant(m: Map<KeyView, ValueView>, v: Seq<CaseView>) -> bool {
    exists|k: KeyView| #[trigger] m.contains_key(k) && (m[k] matches ValueView::Variant {
        parameter_types: _,
        variant_type,
    } && variant_type == v)
}

/// Whether an entry is a `Variant` entry carrying the variant type `v`.
spec fn entry_has_variant(e: (RegistryKey, RegistryValue), v: Seq<CaseView>) -> bool {
    e.1@ matches ValueView::Variant { parameter_types: _, variant_type } && variant_type == v
}

/// The variant types of the `Variant` entries of a sequence, in order.
spec fn variant_entries(s: Seq<(RegistryKey, RegistryValue)>) -> Seq<Seq<CaseView>>
    decreases s.len(),
{
    if s.len() == 0 {
        Seq::empty()
    } else {
        let rest = variant_entries(s.drop_last());
        match s.last().1@ {
            ValueView::Variant { parameter_types: _, variant_type } => rest.push(variant_type),
            _ => rest,
        }
    }
}

/// A variant type stands among `variant_entries(s)` exactly when some entry
/// of `s` is a `Variant` entry carrying it.
proof fn lemma_variant_entries(s: Seq<(RegistryKey, RegistryValue)>)
    ensures
        forall|v: Seq<CaseView>| #[trigger] variant_entries(s).contains(v) <==> exists|j: int|
            0 <= j < s.len() && entry_has_variant(#[trigger] s[j], v),
    decreases s.len(),
{
    if s.len() > 0 {
        lemma_variant_entries(s.drop_last());
        assert forall|v: Seq<CaseView>| #[trigger] variant_entries(s).contains(v) implies exists|
            j: int,
        | 0 <= j < s.len() && entry_has_variant(#[trigger] s[j], v) by {
            if variant_entries(s.drop_last()).contains(v) {
                let j = choose|j: int|
                    0 <= j < s.drop_last().len() && entry_has_variant(
                        #[trigger] s.drop_last()[j],
                        v,
                    );
                assert(entry_has_variant(s[j], v));
            } else {
                assert(entry_has_variant(s[s.len() - 1], v));
            }
        }
        assert forall|v: Seq<CaseView>|
            exists|j: int| 0 <= j < s.len() && entry_has_variant(#[trigger] s[j], v) implies
            #[trigger] variant_entries(s).contains(v) by {
            let j = choose|j: int| 0 <= j < s.len() && entry_has_variant(#[trigger] s[j], v);
            if j < s.len() - 1 {
                assert(entry_has_variant(s.drop_last()[j], v));
                assert(variant_entries(s.drop_last()).contains(v));
                let n = choose|n: int|
                    0 <= n < variant_entries(s.drop_last()).len() && variant_entries(
                        s.drop_last(),
                    )[n] == v;
                assert(variant_entries(s)[n] == v);
            } else {
                assert(variant_entries(s).last() == v);
            }
        }
    }
}

/// The views of a sequence of variant types.
pub open spec fn variants_views(s: Seq<TypeVariant>) -> Seq<Seq<CaseView>> {
    Seq::new(s.len(), |i: int| cases_view(s[i].cases@))
}

/// A symbol table mapping registry keys to registry values, built once from
/// export metadata and immutable afterwards.  Entries live in a vector whose
/// key views are pairwise distinct (`wf`); the view of the registry is the
/// map those entries denote.
#[derive(Debug, PartialEq)]
pub struct FunctionTypeRegistry {
    types: Vec<(RegistryKey, RegistryValue)>,
}

impl View for FunctionTypeRegistry {
    type V = Map<KeyView, ValueView>;

    closed spec fn view(&self) -> Map<KeyView, ValueView> {
        entries_map(self.types@)
    }
}

impl FunctionTypeRegistry {
    /// Well-formedness: the keys of the stored entries are pairwise
    /// distinct, so every stored entry is live in the denoted map.
    /// Both constructors establish this.
    pub closed spec fn wf(self) -> bool {
        entries_wf(self.types@)
    }

    /// The empty registry.
    pub fn empty() -> (r: Self)
        ensures
            r@ == Map::<KeyView, ValueView>::empty(),
            r.wf(),
    {
        FunctionTypeRegistry { types: Vec::new() }
    }

    /// The live entry stored under the given key, by reference.
    fn find<'a>(&'a self, registry_key: &RegistryKey) -> (r: Option<&'a RegistryValue>)
        ensures
            match r {
                Some(v) => self@.contains_key(registry_key@) && v@ == self@[registry_key@],
                None => !self@.contains_key(registry_key@),
            },
    {
        let ghost s = self.types@;
        let mut i: usize = 0;
        let mut found: Option<usize> = None;
        while i < self.types.len()
            invariant
                s == self.types@,
                i <= s.len(),
                match found {
                    Some(idx) => idx < i && s[idx as int].0@ == registry_key@ && entries_map(
                        s.take(i as int),
                    ).contains_key(registry_key@) && entries_map(s.take(i as int))[registry_key@]
                        == s[idx as int].1@,
                    None => !entries_map(s.take(i as int)).contains_key(registry_key@),
                },
            decreases s.len() - i,
        {
            proof {
                assert(s.take(i as int + 1).drop_last() =~= s.take(i as int));
                assert(s.take(i as int + 1).last() == s[i as int]);
            }
            if key_eq(&self.types[i].0, registry_key) {
                found = Some(i);
            }
            i += 1;
        }
        proof {
            assert(s.take(s.len() as int) =~= s);
        }
        match found {
            Some(idx) => Some(&self.types[idx].1),
            None => None,
        }
    }

    /// Exact-match lookup: the value stored under the key, or nothing if the
    /// key is absent — absence is an expected outcome, not an error.
    pub fn lookup(&self, registry_key: &RegistryKey) -> (r: Option<RegistryValue>)
        ensures
            match r {
                Some(v) => self@.contains_key(registry_key@) && v@ == self@[registry_key@],
                None => !self@.contains_key(registry_key@),
            },
    {
        match self.find(registry_key) {
            Some(v) => Some(clone_value(v)),
            None => None,
        }
    }

    /// Resolves a call reference: the reference's registry key is computed —
    /// qualified for a function reference with an interface site, bare
    /// otherwise, and always bare for constructor references — and looked
    /// up.
    pub fn get<'a>(&'a self, key: &CallType) -> (r: Option<&'a RegistryValue>)
        ensures
            match r {
                Some(v) => self@.contains_key(key_of_call(key@)) && v@ == self@[key_of_call(
                    key@,
                )],
                None => !self@.contains_key(key_of_call(key@)),
            },
    {
        let registry_key = RegistryKey::from_call_type(key);
        self.find(&registry_key)
    }


    /// Builds the registry from a component's export metadata.
    ///
    /// A flat pass registers every exported function — under its bare name
    /// for a top-level function, under an interface-qualified name for a
    /// function of an instance — while collecting every distinct parameter
    /// and return type.  A second pass then walks each collected type
    /// recursively and registers every variant and enum case met on the way
    /// under its bare case name.  A later registration with an equal key
    /// silently overwrites an earlier one.
    pub fn from_export_metadata(exports: &Vec<AnalysedExport>) -> (r: Self)
        ensures
            r@ == registry_of(exports_view(exports@)),
            r.wf(),
    {
        let ghost evs = exports_view(exports@);
        let mut map: Vec<(RegistryKey, RegistryValue)> = Vec::new();
        let mut types: Vec<AnalysedType> = Vec::new();
        let mut i: usize = 0;
        while i < exports.len()
            invariant
                i <= exports@.len(),
                evs == exports_view(exports@),
                evs.len() == exports@.len(),
                entries_wf(map@),
                entries_map(map@) == flat_entries(Map::empty(), evs.take(i as int)),
                types_view(types@) == collect_types(Seq::empty(), evs.take(i as int)),
            decreases exports@.len() - i,
        {
            proof {
                assert(evs.take(i as int + 1).drop_last() =~= evs.take(i as int));
                assert(evs.take(i as int + 1).last() == evs[i as int]);
                assert(evs[i as int] == crate::exports::export_view(exports@[i as int]));
            }
            match &exports[i] {
                AnalysedExport::Function(f) => {
                    let parameter_types = collect_params(&f.parameters, &mut types);
                    let return_types = collect_results(&f.results, &mut types);
                    let key = RegistryKey::FunctionName(f.name.clone());
                    let value = RegistryValue::Function { parameter_types, return_types };
                    proof {
                        assert(value@ =~= function_entry(crate::exports::function_view(*f)));
                    }
                    vec_insert(&mut map, key, value);
                }
                AnalysedExport::Instance(inst) => {
                    let ghost fvs = functions_view(inst.functions@);
                    let ghost m_i = entries_map(map@);
                    let ghost t_i = types_view(types@);
                    let mut j: usize = 0;
                    while j < inst.functions.len()
                        invariant
                            j <= inst.functions@.len(),
                            fvs == functions_view(inst.functions@),
                            fvs.len() == inst.functions@.len(),
                            entries_wf(map@),
                            entries_map(map@) == instance_entries(m_i, inst.name@, fvs.take(
                                j as int,
                            )),
                            types_view(types@) == add_functions_types(t_i, fvs.take(j as int)),
                        decreases inst.functions@.len() - j,
                    {
                        proof {
                            assert(fvs.take(j as int + 1).drop_last() =~= fvs.take(j as int));
                            assert(fvs.take(j as int + 1).last() == fvs[j as int]);
                            assert(fvs[j as int] == crate::exports::function_view(
                                inst.functions@[j as int],
                            ));
                        }
                        let f = &inst.functions[j];
                        let parameter_types = collect_params(&f.parameters, &mut types);
                        let return_types = collect_results(&f.results, &mut types);
                        let key = RegistryKey::FunctionNameWithInterface {
                            interface_name: inst.name.clone(),
                            function_name: f.name.clone(),
                        };
                        let value = RegistryValue::Function { parameter_types, return_types };
                        proof {
                            assert(value@ =~= function_entry(fvs[j as int]));
                        }
                        vec_insert(&mut map, key, value);
                        j += 1;
                    }
                    proof {
                        assert(fvs.take(fvs.len() as int) =~= fvs);
                    }
                }
            }
            i += 1;
        }
        proof {
            assert(evs.take(evs.len() as int) =~= evs);
        }
        let ghost flat = entries_map(map@);
        let ghost tts = types_view(types@);
        proof {
            lemma_types_view(types@);
        }
        let mut k: usize = 0;
        while k < types.len()
            invariant
                k <= types@.len(),
                tts == types_view(types@),
                tts.len() == types@.len(),
                forall|j: int| 0 <= j < types@.len() ==> tts[j] == type_view(types@[j]),
                entries_wf(map@),
                entries_map(map@) == expand_types(flat, tts.take(k as int)),
            decreases types@.len() - k,
        {
            update_registry(&types[k], &mut map);
            proof {
                assert(tts.take(k as int + 1).drop_last() =~= tts.take(k as int));
                assert(tts.take(k as int + 1).last() == tts[k as int]);
            }
            k += 1;
        }
        proof {
            assert(tts.take(tts.len() as int) =~= tts);
        }
        FunctionTypeRegistry { types: map }
    }

    /// Every variant type carried by some `Variant` entry of the registry;
    /// the same variant type may occur more than once.
    pub fn get_variants(&self) -> (r: Vec<TypeVariant>)
        requires
            self.wf(),
        ensures
            forall|v: Seq<CaseView>| #[trigger] variants_views(r@).contains(v) <==>
                registry_variant(self@, v),
    {
        let ghost s = self.types@;
        let mut variants: Vec<TypeVariant> = Vec::new();
        let mut i: usize = 0;
        while i < self.types.len()
            invariant
                s == self.types@,
                i <= s.len(),
                variants_views(variants@) == variant_entries(s.take(i as int)),
            decreases s.len() - i,
        {
            proof {
                assert(s.take(i as int + 1).drop_last() =~= s.take(i as int));
                assert(s.take(i as int + 1).last() == s[i as int]);
            }
            let ghost variants0 = variants@;
            match &self.types[i].1 {
                RegistryValue::Variant { parameter_types: _, variant_type } => {
                    variants.push(clone_variant(variant_type));
                    proof {
                        assert(variants_views(variants@) =~= variants_views(variants0).push(
                            cases_view(variant_type.cases@),
                        ));
                    }
                }
                _ => {}
            }
            i += 1;
        }
        proof {
            assert(s.take(s.len() as int) =~= s);
            lemma_variant_entries(s);
            lemma_entries_map_complete(s);
            assert forall|v: Seq<CaseView>| #[trigger] variants_views(variants@).contains(v)
                implies registry_variant(self@, v) by {
                let j = choose|j: int| 0 <= j < s.len() && entry_has_variant(#[trigger] s[j], v);
                assert(entries_map(s).contains_key(s[j].0@));
                assert(entries_map(s)[s[j].0@] == s[j].1@);
            }
            assert forall|v: Seq<CaseView>| registry_variant(self@, v) implies #[trigger]
                variants_views(variants@).contains(v) by {
                let k = choose|k: KeyView| #[trigger] entries_map(s).contains_key(k) && (
                entries_map(s)[k] matches ValueView::Variant {
                    parameter_types: _,
                    variant_type,
                } && variant_type == v);
                let j = choose|j: int| 0 <= j < s.len() && (#[trigger] s[j]).0@ == k;
                assert(entries_map(s)[s[j].0@] == s[j].1@);
                assert(entry_has_variant(s[j], v));
            }
        }
        variants
    }
}

impl Clone for FunctionTypeRegistry {
    /// A deep copy denoting the same map, equally well-formed.
    fn clone(&self) -> (r: Self)
        ensures
            r@ == self@,
            r.wf() == self.wf(),
    {
        let ghost s = self.types@;
        let mut out: Vec<(RegistryKey, RegistryValue)> = Vec::new();
        let mut i: usize = 0;
        while i < self.types.len()
            invariant
                s == self.types@,
                i <= s.len(),
                out@.len() == i,
                forall|j: int| 0 <= j < i ==> (#[trigger] out@[j]).0@ == s[j].0@ && out@[j].1@
                    == s[j].1@,
            decreases s.len() - i,
        {
            let entry = &self.types[i];
            out.push((clone_key(&entry.0), clone_value(&entry.1)));
            i += 1;
        }
        proof {
            lemma_entries_map_congruence(out@, s);
        }
        FunctionTypeRegistry { types: out }
    }
}

} // verus!
