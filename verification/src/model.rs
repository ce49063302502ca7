//! The mathematical model of registry construction: spec functions that say,
//! for a sequence of exported symbols, exactly which key/value map the
//! builder produces.  Every contract on the executable builder and its
//! queries is stated against `registry_of`.

use vstd::prelude::*;
use crate::types::{TypeView, CaseView, FieldView};
use crate::exports::{ParamView, ResultView, FunctionView, InstanceView, ExportView};
use crate::keys::{KeyView, ValueView};

verus! {

/// The parameter types of a function, in declaration order.
pub open spec fn param_types(ps: Seq<ParamView>) -> Seq<TypeView> {
    Seq::new(ps.len(), |i: int| ps[i].typ)
}

/// The return types of a function, in declaration order.
pub open spec fn result_types(rs: Seq<ResultView>) -> Seq<TypeView> {
    Seq::new(rs.len(), |i: int| rs[i].typ)
}

/// The registry value recorded for an exported function.
pub open spec fn function_entry(f: FunctionView) -> ValueView {
    ValueView::Function {
        parameter_types: param_types(f.parameters),
        return_types: result_types(f.results),
    }
}

/// Entries of the functions of one interface instance, added in order under
/// interface-qualified keys.
pub open spec fn instance_entries(
    m: Map<KeyView, ValueView>,
    interface_name: Seq<char>,
    fs: Seq<FunctionView>,
) -> Map<KeyView, ValueView>
    decreases fs.len(),
{
    if fs.len() == 0 {
        m
    } else {
        instance_entries(m, interface_name, fs.drop_last()).insert(
            KeyView::FunctionNameWithInterface {
                interface_name,
                function_name: fs.last().name,
            },
            function_entry(fs.last()),
        )
    }
}

/// Entries contributed by one exported symbol in the flat pass: a top-level
/// function under its bare name, or an instance's functions under qualified
/// names.
pub open spec fn export_entries(m: Map<KeyView, ValueView>, e: ExportView) -> Map<
    KeyView,
    ValueView,
> {
    match e {
        ExportView::Function(f) => m.insert(
            KeyView::FunctionName { name: f.name },
            function_entry(f),
        ),
        ExportView::Instance(inst) => instance_entries(m, inst.name, inst.functions),
    }
}

/// The flat pass over the exports, in order; later entries overwrite earlier
/// ones with an equal key.
pub open spec fn flat_entries(m: Map<KeyView, ValueView>, es: Seq<ExportView>) -> Map<
    KeyView,
    ValueView,
>
    decreases es.len(),
{
    if es.len() == 0 {
        m
    } else {
        export_entries(flat_entries(m, es.drop_last()), es.last())
    }
}

/// Appends a type to the accumulated list of top-level types to expand,
/// unless a structurally equal one was already collected.
pub open spec fn add_type(acc: Seq<TypeView>, t: TypeView) -> Seq<TypeView> {
    if acc.contains(t) {
        acc
    } else {
        acc.push(t)
    }
}

/// Collects the parameter types of a function, in order.
pub open spec fn add_param_types(acc: Seq<TypeView>, ps: Seq<ParamView>) -> Seq<TypeView>
    decreases ps.len(),
{
    if ps.len() == 0 {
        acc
    } else {
        add_type(add_param_types(acc, ps.drop_last()), ps.last().typ)
    }
}

/// Collects the return types of a function, in order.
pub open spec fn add_result_types(acc: Seq<TypeView>, rs: Seq<ResultView>) -> Seq<TypeView>
    decreases rs.len(),
{
    if rs.len() == 0 {
        acc
    } else {
        add_type(add_result_types(acc, rs.drop_last()), rs.last().typ)
    }
}

/// Collects the parameter types, then the return types, of a function.
pub open spec fn add_function_types(acc: Seq<TypeView>, f: FunctionView) -> Seq<TypeView> {
    add_result_types(add_param_types(acc, f.parameters), f.results)
}

/// Collects the types of every function of an instance, in order.
pub open spec fn add_functions_types(acc: Seq<TypeView>, fs: Seq<FunctionView>) -> Seq<TypeView>
    decreases fs.len(),
{
    if fs.len() == 0 {
        acc
    } else {
        add_function_types(add_functions_types(acc, fs.drop_last()), fs.last())
    }
}

/// Collects the types contributed by one exported symbol.
pub open spec fn add_export_types(acc: Seq<TypeView>, e: ExportView) -> Seq<TypeView> {
    match e {
        ExportView::Function(f) => add_function_types(acc, f),
        ExportView::Instance(inst) => add_functions_types(acc, inst.functions),
    }
}

/// Collects the deduplicated top-level types of a sequence of exports, in
/// first-encounter order, starting from `acc`.
pub open spec fn collect_types(acc: Seq<TypeView>, es: Seq<ExportView>) -> Seq<TypeView>
    decreases es.len(),
{
    if es.len() == 0 {
        acc
    } else {
        add_export_types(collect_types(acc, es.drop_last()), es.last())
    }
}

/// Every distinct parameter or return type occurring anywhere in the
/// exports, in first-encounter order.
pub open spec fn top_level_types(es: Seq<ExportView>) -> Seq<TypeView> {
    collect_types(Seq::empty(), es)
}

/// The entry registered for one case of a variant type: a `Variant` entry
/// holding the payload as a one-element parameter list when the case carries
/// one, and a `Value` entry holding the whole variant type otherwise.
pub open spec fn case_entry(whole: TypeView, all_cases: Seq<CaseView>, c: CaseView) -> ValueView {
    match c.typ {
        Some(p) => ValueView::Variant { parameter_types: seq![p], variant_type: all_cases },
        None => ValueView::Value { typ: whole },
    }
}

/// Registers the cases of a variant type, in order, under their bare names.
pub open spec fn register_cases(
    m: Map<KeyView, ValueView>,
    whole: TypeView,
    all_cases: Seq<CaseView>,
    cs: Seq<CaseView>,
) -> Map<KeyView, ValueView>
    decreases cs.len(),
{
    if cs.len() == 0 {
        m
    } else {
        register_cases(m, whole, all_cases, cs.drop_last()).insert(
            KeyView::FunctionName { name: cs.last().name },
            case_entry(whole, all_cases, cs.last()),
        )
    }
}

/// Registers the cases of an enum type, in order, under their bare names.
pub open spec fn register_enum_cases(
    m: Map<KeyView, ValueView>,
    whole: TypeView,
    names: Seq<Seq<char>>,
) -> Map<KeyView, ValueView>
    decreases names.len(),
{
    if names.len() == 0 {
        m
    } else {
        register_enum_cases(m, whole, names.drop_last()).insert(
            KeyView::FunctionName { name: names.last() },
            ValueView::Value { typ: whole },
        )
    }
}

/// The recursive expansion of one type: variant and enum cases are
/// registered at this level; container shapes are walked into; leaves
/// contribute nothing.  A variant's payload types are not walked into.
pub open spec fn expand_type(m: Map<KeyView, ValueView>, t: TypeView) -> Map<KeyView, ValueView>
    decreases t,
{
    match t {
        TypeView::Variant { cases } => register_cases(m, t, cases, cases),
        TypeView::Enum { names } => register_enum_cases(m, t, names),
        TypeView::Tuple { items } => expand_types(m, items),
        TypeView::List { inner } => expand_type(m, *inner),
        TypeView::Record { fields } => expand_fields(m, fields),
        TypeView::Option { inner } => expand_type(m, *inner),
        TypeView::Result { ok, err } => {
            let m1 = match ok {
                Some(b) => expand_type(m, *b),
                None => m,
            };
            match err {
                Some(b) => expand_type(m1, *b),
                None => m1,
            }
        }
        _ => m,
    }
}

/// Expands each type of a sequence, left to right.
pub open spec fn expand_types(m: Map<KeyView, ValueView>, ts: Seq<TypeView>) -> Map<
    KeyView,
    ValueView,
>
    decreases ts,
{
    if ts.len() == 0 {
        m
    } else {
        expand_type(expand_types(m, ts.drop_last()), ts.last())
    }
}

/// Expands the type of each record field, left to right.
pub open spec fn expand_fields(m: Map<KeyView, ValueView>, fs: Seq<FieldView>) -> Map<
    KeyView,
    ValueView,
>
    decreases fs,
{
    if fs.len() == 0 {
        m
    } else {
        expand_type(expand_fields(m, fs.drop_last()), fs.last().typ)
    }
}

/// The registry built from a sequence of exported symbols: the flat pass
/// over the exports, then the recursive expansion of every distinct
/// top-level type, in first-encounter order.
pub open spec fn registry_of(es: Seq<ExportView>) -> Map<KeyView, ValueView> {
    expand_types(flat_entries(Map::empty(), es), top_level_types(es))
}

/// The bare key of a constructor or top-level function name.
pub open spec fn plain_key(name: Seq<char>) -> KeyView {
    KeyView::FunctionName { name }
}

/// The interface-qualified key of a function of an instance.
pub open spec fn qualified_key(interface_name: Seq<char>, function_name: Seq<char>) -> KeyView {
    KeyView::FunctionNameWithInterface { interface_name, function_name }
}

/// Whether some case of a variant's case list bears the given name.
pub open spec fn has_case_named(cs: Seq<CaseView>, name: Seq<char>) -> bool {
    exists|i: int| 0 <= i < cs.len() && cs[i].name == name
}

/// The case names a type contributes when it is expanded: the names of its
/// own cases for a variant or enum, the union over the shapes it contains
/// for a container, and nothing for a leaf.  A variant's payload types
/// contribute nothing: expansion does not walk into them.
pub open spec fn case_names(t: TypeView) -> Set<Seq<char>>
    decreases t,
{
    match t {
        TypeView::Variant { cases } => Set::new(|name: Seq<char>| has_case_named(cases, name)),
        TypeView::Enum { names } => Set::new(|name: Seq<char>| names.contains(name)),
        TypeView::Tuple { items } => case_names_types(items),
        TypeView::List { inner } => case_names(*inner),
        TypeView::Record { fields } => case_names_fields(fields),
        TypeView::Option { inner } => case_names(*inner),
        TypeView::Result { ok, err } => {
            let ok_names = match ok {
                Some(b) => case_names(*b),
                None => Set::empty(),
            };
            let err_names = match err {
                Some(b) => case_names(*b),
                None => Set::empty(),
            };
            ok_names.union(err_names)
        }
        _ => Set::empty(),
    }
}

/// The case names contributed by a sequence of types.
pub open spec fn case_names_types(ts: Seq<TypeView>) -> Set<Seq<char>>
    decreases ts,
{
    if ts.len() == 0 {
        Set::empty()
    } else {
        case_names_types(ts.drop_last()).union(case_names(ts.last()))
    }
}

/// The case names contributed by the field types of a record.
pub open spec fn case_names_fields(fs: Seq<FieldView>) -> Set<Seq<char>>
    decreases fs,
{
    if fs.len() == 0 {
        Set::empty()
    } else {
        case_names_fields(fs.drop_last()).union(case_names(fs.last().typ))
    }
}

/// Whether an instance declares a function with the given name.
pub open spec fn instance_has_function(inst: InstanceView, function_name: Seq<char>) -> bool {
    exists|j: int| 0 <= j < inst.functions.len() && inst.functions[j].name == function_name
}

/// Whether the flat pass over one exported symbol writes the given key.
pub open spec fn export_defines(e: ExportView, k: KeyView) -> bool {
    match e {
        ExportView::Function(f) => k == plain_key(f.name),
        ExportView::Instance(inst) => match k {
            KeyView::FunctionNameWithInterface { interface_name, function_name } => interface_name
                == inst.name && instance_has_function(inst, function_name),
            _ => false,
        },
    }
}

/// Whether the flat pass over the exports writes the given key.
pub open spec fn exports_define(es: Seq<ExportView>, k: KeyView) -> bool {
    exists|i: int| 0 <= i < es.len() && export_defines(es[i], k)
}

/// Whether a type occurs as a parameter or return type of a function.
pub open spec fn function_mentions(f: FunctionView, t: TypeView) -> bool {
    param_types(f.parameters).contains(t) || result_types(f.results).contains(t)
}

/// Whether a type occurs as a parameter or return type anywhere in one
/// exported symbol.
pub open spec fn export_mentions(e: ExportView, t: TypeView) -> bool {
    match e {
        ExportView::Function(f) => function_mentions(f, t),
        ExportView::Instance(inst) => exists|j: int|
            0 <= j < inst.functions.len() && function_mentions(inst.functions[j], t),
    }
}

/// Whether a type occurs as a parameter or return type anywhere in the
/// exports.
pub open spec fn exports_mention(es: Seq<ExportView>, t: TypeView) -> bool {
    exists|i: int| 0 <= i < es.len() && export_mentions(es[i], t)
}

/// Whether the given name could reach the registry as a bare key: as a
/// top-level function name, or as a case name of some type mentioned in the
/// exports.
pub open spec fn plain_name_source(es: Seq<ExportView>, name: Seq<char>) -> bool {
    exports_define(es, plain_key(name)) || exists|t: TypeView|
        #[trigger] exports_mention(es, t) && case_names(t).contains(name)
}

} // verus!
