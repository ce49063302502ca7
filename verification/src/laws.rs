//! Laws of the registry: what the built map contains, stated and proved
//! once and for all over the mathematical model.
//!
//! The central characterizations: which keys the flat pass writes, which
//! bare case names the expansion pass writes, and that the expansion never
//! touches an interface-qualified key.

use vstd::prelude::*;
use crate::types::{TypeView, CaseView, FieldView};
use crate::exports::{FunctionView, ExportView};
use crate::keys::{KeyView, ValueView};
use crate::model::{registry_of, flat_entries, export_entries, instance_entries, collect_types,
    add_export_types, add_functions_types, add_function_types, add_param_types, add_result_types,
    add_type, param_types, result_types, top_level_types, expand_type, expand_types,
    expand_fields, register_cases, register_enum_cases, case_entry, plain_key, qualified_key,
    has_case_named, case_names, case_names_types, case_names_fields, instance_has_function,
    export_defines, exports_define, function_mentions, export_mentions, exports_mention,
    plain_name_source};

verus! {

/// Registering the cases of a variant adds exactly the bare keys of its
/// case names, and leaves every other binding unchanged.
proof fn lemma_register_cases(
    m: Map<KeyView, ValueView>,
    whole: TypeView,
    all_cases: Seq<CaseView>,
    cs: Seq<CaseView>,
)
    ensures
        forall|k: KeyView| #[trigger] register_cases(m, whole, all_cases, cs).contains_key(k)
            <==> m.contains_key(k) || (match k {
            KeyView::FunctionName { name } => has_case_named(cs, name),
            _ => false,
        }),
        forall|k: KeyView|
            (match k {
                KeyView::FunctionName { name } => !has_case_named(cs, name),
                _ => true,
            }) && m.contains_key(k) ==> #[trigger] register_cases(m, whole, all_cases, cs)[k]
                == m[k],
    decreases cs.len(),
{
    if cs.len() > 0 {
        lemma_register_cases(m, whole, all_cases, cs.drop_last());
        assert forall|name: Seq<char>| #[trigger] has_case_named(cs, name) implies
            has_case_named(cs.drop_last(), name) || name == cs.last().name by {
            let i = choose|i: int| 0 <= i < cs.len() && cs[i].name == name;
            if i < cs.len() - 1 {
                assert(cs.drop_last()[i].name == name);
            }
        }
        assert forall|name: Seq<char>| #[trigger] has_case_named(cs.drop_last(), name) implies
            has_case_named(cs, name) by {
            let i = choose|i: int|
                0 <= i < cs.drop_last().len() && cs.drop_last()[i].name == name;
            assert(cs[i].name == name);
        }
        assert(cs[cs.len() - 1].name == cs.last().name);
        assert(has_case_named(cs, cs.last().name));
        let reg = register_cases(m, whole, all_cases, cs);
        let regd = register_cases(m, whole, all_cases, cs.drop_last());
        assert(reg == regd.insert(
            KeyView::FunctionName { name: cs.last().name },
            case_entry(whole, all_cases, cs.last()),
        ));
        assert forall|k: KeyView| #[trigger] reg.contains_key(k) <==> m.contains_key(k) || (
        match k {
            KeyView::FunctionName { name } => has_case_named(cs, name),
            _ => false,
        }) by {
            match k {
                KeyView::FunctionName { name } => {
                    assert(regd.contains_key(k) <==> m.contains_key(k) || has_case_named(
                        cs.drop_last(),
                        name,
                    ));
                }
                _ => {
                    assert(regd.contains_key(k) <==> m.contains_key(k));
                }
            }
        }
        assert forall|k: KeyView|
            (match k {
                KeyView::FunctionName { name } => !has_case_named(cs, name),
                _ => true,
            }) && m.contains_key(k) implies #[trigger] reg[k] == m[k] by {
            match k {
                KeyView::FunctionName { name } => {
                    assert(!has_case_named(cs.drop_last(), name));
                    assert(regd[k] == m[k]);
                    assert(k != KeyView::FunctionName { name: cs.last().name });
                }
                _ => {
                    assert(regd[k] == m[k]);
                }
            }
        }
    }
}

/// Registering the cases of an enum adds exactly the bare keys of its case
/// names, and leaves every other binding unchanged.
proof fn lemma_register_enum_cases(
    m: Map<KeyView, ValueView>,
    whole: TypeView,
    names: Seq<Seq<char>>,
)
    ensures
        forall|k: KeyView| #[trigger] register_enum_cases(m, whole, names).contains_key(k) <==>
            m.contains_key(k) || (match k {
            KeyView::FunctionName { name } => names.contains(name),
            _ => false,
        }),
        forall|k: KeyView|
            (match k {
                KeyView::FunctionName { name } => !names.contains(name),
                _ => true,
            }) && m.contains_key(k) ==> #[trigger] register_enum_cases(m, whole, names)[k]
                == m[k],
    decreases names.len(),
{
    if names.len() > 0 {
        lemma_register_enum_cases(m, whole, names.drop_last());
        assert forall|name: Seq<char>| #[trigger] names.contains(name) implies
            names.drop_last().contains(name) || name == names.last() by {
            let i = choose|i: int| 0 <= i < names.len() && names[i] == name;
            if i < names.len() - 1 {
                assert(names.drop_last()[i] == name);
            }
        }
        assert forall|name: Seq<char>| #[trigger] names.drop_last().contains(name) implies
            names.contains(name) by {
            let i = choose|i: int|
                0 <= i < names.drop_last().len() && names.drop_last()[i] == name;
            assert(names[i] == name);
        }
        assert(names[names.len() - 1] == names.last());
        assert(names.contains(names.last()));
        let reg = register_enum_cases(m, whole, names);
        let regd = register_enum_cases(m, whole, names.drop_last());
        assert(reg == regd.insert(
            KeyView::FunctionName { name: names.last() },
            ValueView::Value { typ: whole },
        ));
        assert forall|k: KeyView| #[trigger] reg.contains_key(k) <==> m.contains_key(k) || (
        match k {
            KeyView::FunctionName { name } => names.contains(name),
            _ => false,
        }) by {
            match k {
                KeyView::FunctionName { name } => {
                    assert(regd.contains_key(k) <==> m.contains_key(k)
                        || names.drop_last().contains(name));
                }
                _ => {
                    assert(regd.contains_key(k) <==> m.contains_key(k));
                }
            }
        }
        assert forall|k: KeyView|
            (match k {
                KeyView::FunctionName { name } => !names.contains(name),
                _ => true,
            }) && m.contains_key(k) implies #[trigger] reg[k] == m[k] by {
            match k {
                KeyView::FunctionName { name } => {
                    assert(!names.drop_last().contains(name));
                    assert(regd[k] == m[k]);
                    assert(k != KeyView::FunctionName { name: names.last() });
                }
                _ => {
                    assert(regd[k] == m[k]);
                }
            }
        }
    }
}

/// Expanding a type adds exactly the bare keys of the case names it
/// contributes, and leaves every other binding unchanged.  In particular an
/// interface-qualified key is never touched by expansion.
pub proof fn lemma_expand_type(m: Map<KeyView, ValueView>, t: TypeView)
    ensures
        forall|k: KeyView| #[trigger] expand_type(m, t).contains_key(k) <==> m.contains_key(k)
            || (match k {
            KeyView::FunctionName { name } => case_names(t).contains(name),
            _ => false,
        }),
        forall|k: KeyView|
            (match k {
                KeyView::FunctionName { name } => !case_names(t).contains(name),
                _ => true,
            }) && m.contains_key(k) ==> #[trigger] expand_type(m, t)[k] == m[k],
    decreases t,
{
    match t {
        TypeView::Variant { cases } => {
            lemma_register_cases(m, t, cases, cases);
            assert(expand_type(m, t) == register_cases(m, t, cases, cases));
            assert forall|name: Seq<char>| #[trigger] case_names(t).contains(name)
                == has_case_named(cases, name) by {}
        }
        TypeView::Enum { names } => {
            lemma_register_enum_cases(m, t, names);
            assert(expand_type(m, t) == register_enum_cases(m, t, names));
            assert forall|name: Seq<char>| #[trigger] case_names(t).contains(name)
                == names.contains(name) by {}
        }
        TypeView::Tuple { items } => {
            lemma_expand_types(m, items);
            assert(expand_type(m, t) == expand_types(m, items));
            assert(case_names(t) == case_names_types(items));
        }
        TypeView::List { inner } => {
            lemma_expand_type(m, *inner);
            assert(expand_type(m, t) == expand_type(m, *inner));
            assert(case_names(t) == case_names(*inner));
        }
        TypeView::Record { fields } => {
            lemma_expand_fields(m, fields);
            assert(expand_type(m, t) == expand_fields(m, fields));
            assert(case_names(t) == case_names_fields(fields));
        }
        TypeView::Option { inner } => {
            lemma_expand_type(m, *inner);
            assert(expand_type(m, t) == expand_type(m, *inner));
            assert(case_names(t) == case_names(*inner));
        }
        TypeView::Result { ok, err } => {
            let m1 = match ok {
                Some(b) => expand_type(m, *b),
                None => m,
            };
            let ok_names = match ok {
                Some(b) => case_names(*b),
                None => Set::<Seq<char>>::empty(),
            };
            let err_names = match err {
                Some(b) => case_names(*b),
                None => Set::<Seq<char>>::empty(),
            };
            match ok {
                Some(b) => lemma_expand_type(m, *b),
                None => {}
            }
            match err {
                Some(b) => lemma_expand_type(m1, *b),
                None => {}
            }
            let reg = expand_type(m, t);
            assert(reg == (match err {
                Some(be) => expand_type(m1, *be),
                None => m1,
            }));
            assert(case_names(t) == ok_names.union(err_names));
            assert forall|k: KeyView| #[trigger] reg.contains_key(k) <==> m.contains_key(k) || (
            match k {
                KeyView::FunctionName { name } => case_names(t).contains(name),
                _ => false,
            }) by {
                match k {
                    KeyView::FunctionName { name } => {
                        assert(reg.contains_key(k) <==> m1.contains_key(k) || err_names.contains(
                            name,
                        ));
                        assert(m1.contains_key(k) <==> m.contains_key(k) || ok_names.contains(
                            name,
                        ));
                        assert(case_names(t).contains(name) <==> ok_names.contains(name)
                            || err_names.contains(name));
                    }
                    _ => {
                        assert(reg.contains_key(k) <==> m1.contains_key(k));
                        assert(m1.contains_key(k) <==> m.contains_key(k));
                    }
                }
            }
            assert forall|k: KeyView|
                (match k {
                    KeyView::FunctionName { name } => !case_names(t).contains(name),
                    _ => true,
                }) && m.contains_key(k) implies #[trigger] reg[k] == m[k] by {
                match k {
                    KeyView::FunctionName { name } => {
                        assert(!ok_names.contains(name) && !err_names.contains(name));
                        assert(m1[k] == m[k]);
                        assert(m1.contains_key(k));
                        assert(reg[k] == m1[k]);
                    }
                    _ => {
                        assert(m1[k] == m[k]);
                        assert(m1.contains_key(k));
                        assert(reg[k] == m1[k]);
                    }
                }
            }
        }
        _ => {
            assert(expand_type(m, t) == m);
            assert(case_names(t) == Set::<Seq<char>>::empty());
        }
    }
}

/// Expanding each type of a sequence adds exactly the bare keys of the case
/// names the sequence contributes, and leaves every other binding
/// unchanged.
pub proof fn lemma_expand_types(m: Map<KeyView, ValueView>, ts: Seq<TypeView>)
    ensures
        forall|k: KeyView| #[trigger] expand_types(m, ts).contains_key(k) <==> m.contains_key(k)
            || (match k {
            KeyView::FunctionName { name } => case_names_types(ts).contains(name),
            _ => false,
        }),
        forall|k: KeyView|
            (match k {
                KeyView::FunctionName { name } => !case_names_types(ts).contains(name),
                _ => true,
            }) && m.contains_key(k) ==> #[trigger] expand_types(m, ts)[k] == m[k],
    decreases ts,
{
    if ts.len() > 0 {
        lemma_expand_types(m, ts.drop_last());
        lemma_expand_type(expand_types(m, ts.drop_last()), ts.last());
        let md = expand_types(m, ts.drop_last());
        let reg = expand_types(m, ts);
        assert(reg == expand_type(md, ts.last()));
        assert(case_names_types(ts) == case_names_types(ts.drop_last()).union(
            case_names(ts.last()),
        ));
        assert forall|k: KeyView| #[trigger] reg.contains_key(k) <==> m.contains_key(k) || (
        match k {
            KeyView::FunctionName { name } => case_names_types(ts).contains(name),
            _ => false,
        }) by {
            match k {
                KeyView::FunctionName { name } => {
                    assert(reg.contains_key(k) <==> md.contains_key(k) || case_names(
                        ts.last(),
                    ).contains(name));
                    assert(md.contains_key(k) <==> m.contains_key(k) || case_names_types(
                        ts.drop_last(),
                    ).contains(name));
                }
                _ => {
                    assert(reg.contains_key(k) <==> md.contains_key(k));
                    assert(md.contains_key(k) <==> m.contains_key(k));
                }
            }
        }
        assert forall|k: KeyView|
            (match k {
                KeyView::FunctionName { name } => !case_names_types(ts).contains(name),
                _ => true,
            }) && m.contains_key(k) implies #[trigger] reg[k] == m[k] by {
            match k {
                KeyView::FunctionName { name } => {
                    assert(!case_names_types(ts.drop_last()).contains(name));
                    assert(!case_names(ts.last()).contains(name));
                    assert(md[k] == m[k]);
                    assert(md.contains_key(k));
                    assert(reg[k] == md[k]);
                }
                _ => {
                    assert(md[k] == m[k]);
                    assert(md.contains_key(k));
                    assert(reg[k] == md[k]);
                }
            }
        }
    }
}

/// Expanding the field types of a record adds exactly the bare keys of the
/// case names the fields contribute, and leaves every other binding
/// unchanged.
pub proof fn lemma_expand_fields(m: Map<KeyView, ValueView>, fs: Seq<FieldView>)
    ensures
        forall|k: KeyView| #[trigger] expand_fields(m, fs).contains_key(k) <==> m.contains_key(k)
            || (match k {
            KeyView::FunctionName { name } => case_names_fields(fs).contains(name),
            _ => false,
        }),
        forall|k: KeyView|
            (match k {
                KeyView::FunctionName { name } => !case_names_fields(fs).contains(name),
                _ => true,
            }) && m.contains_key(k) ==> #[trigger] expand_fields(m, fs)[k] == m[k],
    decreases fs,
{
    if fs.len() > 0 {
        lemma_expand_fields(m, fs.drop_last());
        lemma_expand_type(expand_fields(m, fs.drop_last()), fs.last().typ);
        let md = expand_fields(m, fs.drop_last());
        let reg = expand_fields(m, fs);
        assert(reg == expand_type(md, fs.last().typ));
        assert(case_names_fields(fs) == case_names_fields(fs.drop_last()).union(
            case_names(fs.last().typ),
        ));
        assert forall|k: KeyView| #[trigger] reg.contains_key(k) <==> m.contains_key(k) || (
        match k {
            KeyView::FunctionName { name } => case_names_fields(fs).contains(name),
            _ => false,
        }) by {
            match k {
                KeyView::FunctionName { name } => {
                    assert(reg.contains_key(k) <==> md.contains_key(k) || case_names(
                        fs.last().typ,
                    ).contains(name));
                    assert(md.contains_key(k) <==> m.contains_key(k) || case_names_fields(
                        fs.drop_last(),
                    ).contains(name));
                }
                _ => {
                    assert(reg.contains_key(k) <==> md.contains_key(k));
                    assert(md.contains_key(k) <==> m.contains_key(k));
                }
            }
        }
        assert forall|k: KeyView|
            (match k {
                KeyView::FunctionName { name } => !case_names_fields(fs).contains(name),
                _ => true,
            }) && m.contains_key(k) implies #[trigger] reg[k] == m[k] by {
            match k {
                KeyView::FunctionName { name } => {
                    assert(!case_names_fields(fs.drop_last()).contains(name));
                    assert(!case_names(fs.last().typ).contains(name));
                    assert(md[k] == m[k]);
                    assert(md.contains_key(k));
                    assert(reg[k] == md[k]);
                }
                _ => {
                    assert(md[k] == m[k]);
                    assert(md.contains_key(k));
                    assert(reg[k] == md[k]);
                }
            }
        }
    }
}

/// Whether some function of the list bears the given name.
pub open spec fn functions_have(fs: Seq<FunctionView>, name: Seq<char>) -> bool {
    exists|j: int| 0 <= j < fs.len() && (#[trigger] fs[j]).name == name
}

/// The functions of an instance are entered exactly under their qualified
/// keys; every other binding is left unchanged.
proof fn lemma_instance_entries(
    m: Map<KeyView, ValueView>,
    iname: Seq<char>,
    fs: Seq<FunctionView>,
)
    ensures
        forall|k: KeyView| #[trigger] instance_entries(m, iname, fs).contains_key(k) <==>
            m.contains_key(k) || (match k {
            KeyView::FunctionNameWithInterface { interface_name, function_name } => interface_name
                == iname && functions_have(fs, function_name),
            _ => false,
        }),
        forall|k: KeyView|
            (match k {
                KeyView::FunctionNameWithInterface { interface_name, function_name } => !(
                interface_name == iname && functions_have(fs, function_name)),
                _ => true,
            }) && m.contains_key(k) ==> #[trigger] instance_entries(m, iname, fs)[k] == m[k],
    decreases fs.len(),
{
    if fs.len() > 0 {
        lemma_instance_entries(m, iname, fs.drop_last());
        assert forall|name: Seq<char>| #[trigger] functions_have(fs, name) implies
            functions_have(fs.drop_last(), name) || name == fs.last().name by {
            let j = choose|j: int| 0 <= j < fs.len() && (#[trigger] fs[j]).name == name;
            if j < fs.len() - 1 {
                assert(fs.drop_last()[j].name == name);
            }
        }
        assert forall|name: Seq<char>| #[trigger] functions_have(fs.drop_last(), name) implies
            functions_have(fs, name) by {
            let j = choose|j: int|
                0 <= j < fs.drop_last().len() && (#[trigger] fs.drop_last()[j]).name == name;
            assert(fs[j].name == name);
        }
        assert(fs[fs.len() - 1].name == fs.last().name);
        assert(functions_have(fs, fs.last().name));
        let reg = instance_entries(m, iname, fs);
        let regd = instance_entries(m, iname, fs.drop_last());
        assert(reg == regd.insert(
            KeyView::FunctionNameWithInterface {
                interface_name: iname,
                function_name: fs.last().name,
            },
            crate::model::function_entry(fs.last()),
        ));
        assert forall|k: KeyView| #[trigger] reg.contains_key(k) <==> m.contains_key(k) || (
        match k {
            KeyView::FunctionNameWithInterface { interface_name, function_name } => interface_name
                == iname && functions_have(fs, function_name),
            _ => false,
        }) by {
            match k {
                KeyView::FunctionNameWithInterface { interface_name, function_name } => {
                    assert(regd.contains_key(k) <==> m.contains_key(k) || (interface_name == iname
                        && functions_have(fs.drop_last(), function_name)));
                }
                _ => {
                    assert(regd.contains_key(k) <==> m.contains_key(k));
                }
            }
        }
        assert forall|k: KeyView|
            (match k {
                KeyView::FunctionNameWithInterface { interface_name, function_name } => !(
                interface_name == iname && functions_have(fs, function_name)),
                _ => true,
            }) && m.contains_key(k) implies #[trigger] reg[k] == m[k] by {
            match k {
                KeyView::FunctionNameWithInterface { interface_name, function_name } => {
                    assert(!(interface_name == iname && functions_have(
                        fs.drop_last(),
                        function_name,
                    )));
                    assert(regd[k] == m[k]);
                    assert(k != KeyView::FunctionNameWithInterface {
                        interface_name: iname,
                        function_name: fs.last().name,
                    });
                }
                _ => {
                    assert(regd[k] == m[k]);
                }
            }
        }
    }
}

/// The flat pass over one exported symbol writes exactly the keys it
/// defines, and leaves every other binding unchanged.
proof fn lemma_export_entries(m: Map<KeyView, ValueView>, e: ExportView)
    ensures
        forall|k: KeyView| #[trigger] export_entries(m, e).contains_key(k) <==> m.contains_key(k)
            || export_defines(e, k),
        forall|k: KeyView| !export_defines(e, k) && m.contains_key(k) ==> #[trigger] export_entries(
            m,
            e,
        )[k] == m[k],
{
    match e {
        ExportView::Function(_) => {}
        ExportView::Instance(inst) => {
            lemma_instance_entries(m, inst.name, inst.functions);
        }
    }
}

/// The flat pass over the exports writes exactly the keys they define, and
/// leaves every other binding unchanged.
pub proof fn lemma_flat_entries(m: Map<KeyView, ValueView>, es: Seq<ExportView>)
    ensures
        forall|k: KeyView| #[trigger] flat_entries(m, es).contains_key(k) <==> m.contains_key(k)
            || exports_define(es, k),
        forall|k: KeyView| !exports_define(es, k) && m.contains_key(k) ==> #[trigger] flat_entries(
            m,
            es,
        )[k] == m[k],
    decreases es.len(),
{
    if es.len() > 0 {
        lemma_flat_entries(m, es.drop_last());
        lemma_export_entries(flat_entries(m, es.drop_last()), es.last());
        assert forall|k: KeyView| #[trigger] exports_define(es, k) implies
            exports_define(es.drop_last(), k) || export_defines(es.last(), k) by {
            let i = choose|i: int| 0 <= i < es.len() && export_defines(es[i], k);
            if i < es.len() - 1 {
                assert(export_defines(es.drop_last()[i], k));
            }
        }
        assert forall|k: KeyView| #[trigger] exports_define(es.drop_last(), k) implies
            exports_define(es, k) by {
            let i = choose|i: int|
                0 <= i < es.drop_last().len() && export_defines(es.drop_last()[i], k);
            assert(export_defines(es[i], k));
        }
        assert forall|k: KeyView| export_defines(es.last(), k) implies #[trigger] exports_define(
            es,
            k,
        ) by {
            assert(export_defines(es[es.len() - 1], k));
        }
    }
}

/// Adding one type to the collected list makes it contain exactly that type
/// more.
proof fn lemma_add_type(acc: Seq<TypeView>, t: TypeView)
    ensures
        forall|x: TypeView| #[trigger] add_type(acc, t).contains(x) <==> acc.contains(x) || x
            == t,
{
    if acc.contains(t) {
        assert(add_type(acc, t) == acc);
    } else {
        assert forall|x: TypeView| #[trigger] add_type(acc, t).contains(x) implies acc.contains(x)
            || x == t by {
            let i = choose|i: int| 0 <= i < add_type(acc, t).len() && add_type(acc, t)[i] == x;
            if i < acc.len() {
                assert(acc[i] == x);
            }
        }
        assert forall|x: TypeView| acc.contains(x) || x == t implies #[trigger] add_type(
            acc,
            t,
        ).contains(x) by {
            if acc.contains(x) {
                let i = choose|i: int| 0 <= i < acc.len() && acc[i] == x;
                assert(add_type(acc, t)[i] == x);
            } else {
                assert(add_type(acc, t)[acc.len() as int] == x);
            }
        }
    }
}

/// Collecting a function's parameter types collects exactly them.
proof fn lemma_add_param_types(acc: Seq<TypeView>, ps: Seq<crate::exports::ParamView>)
    ensures
        forall|x: TypeView| #[trigger] add_param_types(acc, ps).contains(x) <==> acc.contains(x)
            || param_types(ps).contains(x),
    decreases ps.len(),
{
    if ps.len() > 0 {
        lemma_add_param_types(acc, ps.drop_last());
        lemma_add_type(add_param_types(acc, ps.drop_last()), ps.last().typ);
        assert(add_param_types(acc, ps) == add_type(
            add_param_types(acc, ps.drop_last()),
            ps.last().typ,
        ));
        assert forall|x: TypeView| #[trigger] param_types(ps).contains(x) implies param_types(
            ps.drop_last(),
        ).contains(x) || x == ps.last().typ by {
            let i = choose|i: int| 0 <= i < param_types(ps).len() && param_types(ps)[i] == x;
            if i < ps.len() - 1 {
                assert(param_types(ps.drop_last())[i] == x);
            }
        }
        assert forall|x: TypeView| param_types(ps.drop_last()).contains(x) implies #[trigger]
        param_types(ps).contains(x) by {
            let i = choose|i: int|
                0 <= i < param_types(ps.drop_last()).len() && param_types(ps.drop_last())[i] == x;
            assert(param_types(ps)[i] == x);
        }
        assert(param_types(ps)[ps.len() - 1] == ps.last().typ);
        assert(param_types(ps).contains(ps.last().typ));
    }
}

/// Collecting a function's return types collects exactly them.
proof fn lemma_add_result_types(acc: Seq<TypeView>, rs: Seq<crate::exports::ResultView>)
    ensures
        forall|x: TypeView| #[trigger] add_result_types(acc, rs).contains(x) <==> acc.contains(x)
            || result_types(rs).contains(x),
    decreases rs.len(),
{
    if rs.len() > 0 {
        lemma_add_result_types(acc, rs.drop_last());
        lemma_add_type(add_result_types(acc, rs.drop_last()), rs.last().typ);
        assert(add_result_types(acc, rs) == add_type(
            add_result_types(acc, rs.drop_last()),
            rs.last().typ,
        ));
        assert forall|x: TypeView| #[trigger] result_types(rs).contains(x) implies result_types(
            rs.drop_last(),
        ).contains(x) || x == rs.last().typ by {
            let i = choose|i: int| 0 <= i < result_types(rs).len() && result_types(rs)[i] == x;
            if i < rs.len() - 1 {
                assert(result_types(rs.drop_last())[i] == x);
            }
        }
        assert forall|x: TypeView| result_types(rs.drop_last()).contains(x) implies #[trigger]
        result_types(rs).contains(x) by {
            let i = choose|i: int|
                0 <= i < result_types(rs.drop_last()).len() && result_types(rs.drop_last())[i]
                    == x;
            assert(result_types(rs)[i] == x);
        }
        assert(result_types(rs)[rs.len() - 1] == rs.last().typ);
        assert(result_types(rs).contains(rs.last().typ));
    }
}

/// Collecting a function's types collects exactly the types it mentions.
proof fn lemma_add_function_types(acc: Seq<TypeView>, f: FunctionView)
    ensures
        forall|x: TypeView| #[trigger] add_function_types(acc, f).contains(x) <==> acc.contains(x)
            || function_mentions(f, x),
{
    lemma_add_param_types(acc, f.parameters);
    lemma_add_result_types(add_param_types(acc, f.parameters), f.results);
}

/// Whether some function of the list mentions the type.
pub open spec fn functions_mention(fs: Seq<FunctionView>, t: TypeView) -> bool {
    exists|j: int| 0 <= j < fs.len() && function_mentions(#[trigger] fs[j], t)
}

/// Collecting an instance's types collects exactly the types its functions
/// mention.
proof fn lemma_add_functions_types(acc: Seq<TypeView>, fs: Seq<FunctionView>)
    ensures
        forall|x: TypeView| #[trigger] add_functions_types(acc, fs).contains(x) <==> acc.contains(
            x,
        ) || functions_mention(fs, x),
    decreases fs.len(),
{
    if fs.len() > 0 {
        lemma_add_functions_types(acc, fs.drop_last());
        lemma_add_function_types(add_functions_types(acc, fs.drop_last()), fs.last());
        assert(add_functions_types(acc, fs) == add_function_types(
            add_functions_types(acc, fs.drop_last()),
            fs.last(),
        ));
        assert forall|x: TypeView| #[trigger] functions_mention(fs, x) implies functions_mention(
            fs.drop_last(),
            x,
        ) || function_mentions(fs.last(), x) by {
            let j = choose|j: int| 0 <= j < fs.len() && function_mentions(#[trigger] fs[j], x);
            if j < fs.len() - 1 {
                assert(function_mentions(fs.drop_last()[j], x));
            }
        }
        assert forall|x: TypeView| #[trigger] functions_mention(fs.drop_last(), x) implies
            functions_mention(fs, x) by {
            let j = choose|j: int|
                0 <= j < fs.drop_last().len() && function_mentions(
                    #[trigger] fs.drop_last()[j],
                    x,
                );
            assert(function_mentions(fs[j], x));
        }
        assert forall|x: TypeView| function_mentions(fs.last(), x) implies #[trigger]
        functions_mention(fs, x) by {
            assert(function_mentions(fs[fs.len() - 1], x));
        }
    }
}

/// Collecting one exported symbol's types collects exactly the types it
/// mentions.
proof fn lemma_add_export_types(acc: Seq<TypeView>, e: ExportView)
    ensures
        forall|x: TypeView| #[trigger] add_export_types(acc, e).contains(x) <==> acc.contains(x)
            || export_mentions(e, x),
{
    match e {
        ExportView::Function(f) => {
            lemma_add_function_types(acc, f);
        }
        ExportView::Instance(inst) => {
            lemma_add_functions_types(acc, inst.functions);
            assert forall|x: TypeView| #[trigger] functions_mention(inst.functions, x)
                == export_mentions(e, x) by {
                if functions_mention(inst.functions, x) {
                    let j = choose|j: int|
                        0 <= j < inst.functions.len() && function_mentions(
                            #[trigger] inst.functions[j],
                            x,
                        );
                    assert(export_mentions(e, x));
                }
                if export_mentions(e, x) {
                    let j = choose|j: int|
                        0 <= j < inst.functions.len() && function_mentions(inst.functions[j], x);
                    assert(function_mentions(inst.functions[j], x));
                    assert(functions_mention(inst.functions, x));
                }
            }
        }
    }
}

/// The collected top-level types are exactly the types the exports mention.
pub proof fn lemma_collect_types(acc: Seq<TypeView>, es: Seq<ExportView>)
    ensures
        forall|x: TypeView| #[trigger] collect_types(acc, es).contains(x) <==> acc.contains(x)
            || exports_mention(es, x),
    decreases es.len(),
{
    if es.len() > 0 {
        lemma_collect_types(acc, es.drop_last());
        lemma_add_export_types(collect_types(acc, es.drop_last()), es.last());
        assert(collect_types(acc, es) == add_export_types(
            collect_types(acc, es.drop_last()),
            es.last(),
        ));
        assert forall|x: TypeView| #[trigger] exports_mention(es, x) implies exports_mention(
            es.drop_last(),
            x,
        ) || export_mentions(es.last(), x) by {
            let i = choose|i: int| 0 <= i < es.len() && export_mentions(es[i], x);
            if i < es.len() - 1 {
                assert(export_mentions(es.drop_last()[i], x));
            }
        }
        assert forall|x: TypeView| #[trigger] exports_mention(es.drop_last(), x) implies
            exports_mention(es, x) by {
            let i = choose|i: int|
                0 <= i < es.drop_last().len() && export_mentions(es.drop_last()[i], x);
            assert(export_mentions(es[i], x));
        }
        assert forall|x: TypeView| export_mentions(es.last(), x) implies #[trigger]
        exports_mention(es, x) by {
            assert(export_mentions(es[es.len() - 1], x));
        }
    }
}

/// A case name found somewhere in a sequence of types is a case name of the
/// sequence, and conversely.
proof fn lemma_case_names_types_members(ts: Seq<TypeView>)
    ensures
        forall|n: Seq<char>| #[trigger] case_names_types(ts).contains(n) <==> exists|i: int|
            0 <= i < ts.len() && case_names(#[trigger] ts[i]).contains(n),
    decreases ts,
{
    if ts.len() > 0 {
        lemma_case_names_types_members(ts.drop_last());
        assert(case_names_types(ts) == case_names_types(ts.drop_last()).union(
            case_names(ts.last()),
        ));
        assert forall|n: Seq<char>| #[trigger] case_names_types(ts).contains(n) implies exists|
            i: int,
        | 0 <= i < ts.len() && case_names(#[trigger] ts[i]).contains(n) by {
            if case_names_types(ts.drop_last()).contains(n) {
                let i = choose|i: int|
                    0 <= i < ts.drop_last().len() && case_names(
                        #[trigger] ts.drop_last()[i],
                    ).contains(n);
                assert(case_names(ts[i]).contains(n));
            } else {
                assert(case_names(ts[ts.len() - 1]).contains(n));
            }
        }
        assert forall|n: Seq<char>|
            exists|i: int| 0 <= i < ts.len() && case_names(#[trigger] ts[i]).contains(n) implies
            #[trigger] case_names_types(ts).contains(n) by {
            let i = choose|i: int| 0 <= i < ts.len() && case_names(#[trigger] ts[i]).contains(n);
            if i < ts.len() - 1 {
                assert(case_names(ts.drop_last()[i]).contains(n));
                assert(case_names_types(ts.drop_last()).contains(n));
            }
        }
    }
}

/// A registry value is justified by its key: a `Variant` entry must sit
/// under a bare case name, hold exactly one parameter type, and that type
/// must be the declared payload of a case of that name in the variant type
/// it carries.  Entries of any other shape are unconstrained here.
pub open spec fn value_justified(k: KeyView, v: ValueView) -> bool {
    match v {
        ValueView::Variant { parameter_types, variant_type } => match k {
            KeyView::FunctionName { name } => parameter_types.len() == 1 && exists|i: int|
                0 <= i < variant_type.len() && (#[trigger] variant_type[i]).name == name
                    && variant_type[i].typ == Some(parameter_types[0]),
            _ => false,
        },
        _ => true,
    }
}

/// Every binding of the map is justified by its key.
pub open spec fn map_justified(m: Map<KeyView, ValueView>) -> bool {
    forall|k: KeyView| #[trigger] m.contains_key(k) ==> value_justified(k, m[k])
}

/// Registering variant cases that all belong to the carried case list keeps
/// the map justified.
proof fn lemma_register_cases_justified(
    m: Map<KeyView, ValueView>,
    whole: TypeView,
    all_cases: Seq<CaseView>,
    cs: Seq<CaseView>,
)
    requires
        map_justified(m),
        forall|i: int| 0 <= i < cs.len() ==> all_cases.contains(#[trigger] cs[i]),
    ensures
        map_justified(register_cases(m, whole, all_cases, cs)),
    decreases cs.len(),
{
    if cs.len() > 0 {
        assert forall|i: int| 0 <= i < cs.drop_last().len() implies all_cases.contains(
            #[trigger] cs.drop_last()[i],
        ) by {
            assert(cs.drop_last()[i] == cs[i]);
        }
        lemma_register_cases_justified(m, whole, all_cases, cs.drop_last());
        let c = cs.last();
        assert(all_cases.contains(cs[cs.len() - 1]));
        let key = KeyView::FunctionName { name: c.name };
        let v = case_entry(whole, all_cases, c);
        assert(value_justified(key, v)) by {
            match c.typ {
                Some(p) => {
                    let i = choose|i: int| 0 <= i < all_cases.len() && all_cases[i] == c;
                    assert((all_cases[i]).name == c.name);
                    assert(all_cases[i].typ == Some(p));
                    assert(v == (ValueView::Variant {
                        parameter_types: seq![p],
                        variant_type: all_cases,
                    }));
                    assert(seq![p].len() == 1 && seq![p][0] == p);
                }
                None => {}
            }
        }
        let reg = register_cases(m, whole, all_cases, cs);
        let regd = register_cases(m, whole, all_cases, cs.drop_last());
        assert(reg == regd.insert(key, v));
        assert forall|k: KeyView| #[trigger] reg.contains_key(k) implies value_justified(
            k,
            reg[k],
        ) by {
            if k == key {
                assert(reg[k] == v);
            } else {
                assert(regd.contains_key(k));
                assert(reg[k] == regd[k]);
            }
        }
    }
}

/// Registering enum cases keeps the map justified: each entry is a `Value`.
proof fn lemma_register_enum_cases_justified(
    m: Map<KeyView, ValueView>,
    whole: TypeView,
    names: Seq<Seq<char>>,
)
    requires
        map_justified(m),
    ensures
        map_justified(register_enum_cases(m, whole, names)),
    decreases names.len(),
{
    if names.len() > 0 {
        lemma_register_enum_cases_justified(m, whole, names.drop_last());
        let reg = register_enum_cases(m, whole, names);
        let regd = register_enum_cases(m, whole, names.drop_last());
        let key = KeyView::FunctionName { name: names.last() };
        assert(reg == regd.insert(key, ValueView::Value { typ: whole }));
        assert forall|k: KeyView| #[trigger] reg.contains_key(k) implies value_justified(
            k,
            reg[k],
        ) by {
            if k != key {
                assert(regd.contains_key(k));
                assert(reg[k] == regd[k]);
            }
        }
    }
}

/// Expanding a type keeps the map justified.
proof fn lemma_expand_type_justified(m: Map<KeyView, ValueView>, t: TypeView)
    requires
        map_justified(m),
    ensures
        map_justified(expand_type(m, t)),
    decreases t,
{
    match t {
        TypeView::Variant { cases } => {
            assert forall|i: int| 0 <= i < cases.len() implies cases.contains(
                #[trigger] cases[i],
            ) by {}
            lemma_register_cases_justified(m, t, cases, cases);
            assert(expand_type(m, t) == register_cases(m, t, cases, cases));
        }
        TypeView::Enum { names } => {
            lemma_register_enum_cases_justified(m, t, names);
            assert(expand_type(m, t) == register_enum_cases(m, t, names));
        }
        TypeView::Tuple { items } => {
            lemma_expand_types_justified(m, items);
            assert(expand_type(m, t) == expand_types(m, items));
        }
        TypeView::List { inner } => {
            lemma_expand_type_justified(m, *inner);
            assert(expand_type(m, t) == expand_type(m, *inner));
        }
        TypeView::Record { fields } => {
            lemma_expand_fields_justified(m, fields);
            assert(expand_type(m, t) == expand_fields(m, fields));
        }
        TypeView::Option { inner } => {
            lemma_expand_type_justified(m, *inner);
            assert(expand_type(m, t) == expand_type(m, *inner));
        }
        TypeView::Result { ok, err } => {
            let m1 = match ok {
                Some(b) => expand_type(m, *b),
                None => m,
            };
            match ok {
                Some(b) => lemma_expand_type_justified(m, *b),
                None => {}
            }
            match err {
                Some(b) => lemma_expand_type_justified(m1, *b),
                None => {}
            }
            assert(expand_type(m, t) == (match err {
                Some(be) => expand_type(m1, *be),
                None => m1,
            }));
        }
        _ => {
            assert(expand_type(m, t) == m);
        }
    }
}

/// Expanding each type of a sequence keeps the map justified.
proof fn lemma_expand_types_justified(m: Map<KeyView, ValueView>, ts: Seq<TypeView>)
    requires
        map_justified(m),
    ensures
        map_justified(expand_types(m, ts)),
    decreases ts,
{
    if ts.len() > 0 {
        lemma_expand_types_justified(m, ts.drop_last());
        lemma_expand_type_justified(expand_types(m, ts.drop_last()), ts.last());
        assert(expand_types(m, ts) == expand_type(expand_types(m, ts.drop_last()), ts.last()));
    }
}

/// Expanding the field types of a record keeps the map justified.
proof fn lemma_expand_fields_justified(m: Map<KeyView, ValueView>, fs: Seq<FieldView>)
    requires
        map_justified(m),
    ensures
        map_justified(expand_fields(m, fs)),
    decreases fs,
{
    if fs.len() > 0 {
        lemma_expand_fields_justified(m, fs.drop_last());
        lemma_expand_type_justified(expand_fields(m, fs.drop_last()), fs.last().typ);
        assert(expand_fields(m, fs) == expand_type(
            expand_fields(m, fs.drop_last()),
            fs.last().typ,
        ));
    }
}

/// The flat pass keeps the map justified: it enters `Function` values only.
proof fn lemma_instance_entries_justified(
    m: Map<KeyView, ValueView>,
    iname: Seq<char>,
    fs: Seq<FunctionView>,
)
    requires
        map_justified(m),
    ensures
        map_justified(instance_entries(m, iname, fs)),
    decreases fs.len(),
{
    if fs.len() > 0 {
        lemma_instance_entries_justified(m, iname, fs.drop_last());
        let reg = instance_entries(m, iname, fs);
        let regd = instance_entries(m, iname, fs.drop_last());
        let key = KeyView::FunctionNameWithInterface {
            interface_name: iname,
            function_name: fs.last().name,
        };
        assert(reg == regd.insert(key, crate::model::function_entry(fs.last())));
        assert forall|k: KeyView| #[trigger] reg.contains_key(k) implies value_justified(
            k,
            reg[k],
        ) by {
            if k != key {
                assert(regd.contains_key(k));
                assert(reg[k] == regd[k]);
            }
        }
    }
}

/// The flat pass over the exports keeps the map justified.
proof fn lemma_flat_entries_justified(m: Map<KeyView, ValueView>, es: Seq<ExportView>)
    requires
        map_justified(m),
    ensures
        map_justified(flat_entries(m, es)),
    decreases es.len(),
{
    if es.len() > 0 {
        lemma_flat_entries_justified(m, es.drop_last());
        let md = flat_entries(m, es.drop_last());
        assert(flat_entries(m, es) == export_entries(md, es.last()));
        match es.last() {
            ExportView::Function(f) => {
                let key = KeyView::FunctionName { name: f.name };
                let reg = export_entries(md, es.last());
                assert(reg == md.insert(key, crate::model::function_entry(f)));
                assert forall|k: KeyView| #[trigger] reg.contains_key(k) implies value_justified(
                    k,
                    reg[k],
                ) by {
                    if k != key {
                        assert(md.contains_key(k));
                        assert(reg[k] == md[k]);
                    }
                }
            }
            ExportView::Instance(inst) => {
                lemma_instance_entries_justified(md, inst.name, inst.functions);
                assert(export_entries(md, es.last()) == instance_entries(
                    md,
                    inst.name,
                    inst.functions,
                ));
            }
        }
    }
}

/// Law (determinism): the registry built from export metadata is a function
/// of that metadata alone — any two registries built from the same exports
/// denote the same key/value map.
pub proof fn lemma_build_deterministic(
    es: Seq<ExportView>,
    m1: Map<KeyView, ValueView>,
    m2: Map<KeyView, ValueView>,
)
    requires
        m1 == registry_of(es),
        m2 == registry_of(es),
    ensures
        m1 == m2,
{
}

/// Law (qualification): a function declared inside a named interface
/// instance is registered, reachable under its interface-qualified key.
pub proof fn lemma_interface_function_registered(es: Seq<ExportView>, i: int, j: int)
    requires
        0 <= i < es.len(),
        es[i] is Instance,
        0 <= j < es[i]->Instance_0.functions.len(),
    ensures
        registry_of(es).contains_key(
            qualified_key(es[i]->Instance_0.name, es[i]->Instance_0.functions[j].name),
        ),
{
    let inst = es[i]->Instance_0;
    let k = qualified_key(inst.name, inst.functions[j].name);
    assert(instance_has_function(inst, inst.functions[j].name));
    assert(export_defines(es[i], k));
    assert(exports_define(es, k));
    lemma_flat_entries(Map::empty(), es);
    assert(flat_entries(Map::empty(), es).contains_key(k));
    lemma_expand_types(flat_entries(Map::empty(), es), top_level_types(es));
    assert(registry_of(es) == expand_types(flat_entries(Map::empty(), es), top_level_types(es)));
}

/// Law (qualification): a function exported at the top level is registered,
/// reachable under its bare key.
pub proof fn lemma_toplevel_function_registered(es: Seq<ExportView>, i: int)
    requires
        0 <= i < es.len(),
        es[i] is Function,
    ensures
        registry_of(es).contains_key(plain_key(es[i]->Function_0.name)),
{
    let k = plain_key(es[i]->Function_0.name);
    assert(export_defines(es[i], k));
    assert(exports_define(es, k));
    lemma_flat_entries(Map::empty(), es);
    assert(flat_entries(Map::empty(), es).contains_key(k));
    lemma_expand_types(flat_entries(Map::empty(), es), top_level_types(es));
    assert(registry_of(es) == expand_types(flat_entries(Map::empty(), es), top_level_types(es)));
}

/// Law (qualification): a bare name that no top-level function bears and
/// that is a case name of no type mentioned in the exports is absent from
/// the registry — looking it up fails.
pub proof fn lemma_plain_key_absent(es: Seq<ExportView>, name: Seq<char>)
    requires
        !plain_name_source(es, name),
    ensures
        !registry_of(es).contains_key(plain_key(name)),
{
    let flat = flat_entries(Map::<KeyView, ValueView>::empty(), es);
    let tts = top_level_types(es);
    lemma_flat_entries(Map::empty(), es);
    lemma_expand_types(flat, tts);
    lemma_collect_types(Seq::empty(), es);
    lemma_case_names_types_members(tts);
    assert(registry_of(es) == expand_types(flat, tts));
    assert(!exports_define(es, plain_key(name)));
    assert(!flat.contains_key(plain_key(name)));
    if case_names_types(tts).contains(name) {
        let i = choose|i: int| 0 <= i < tts.len() && case_names(#[trigger] tts[i]).contains(name);
        assert(tts.contains(tts[i]));
        assert(exports_mention(es, tts[i]));
        assert(plain_name_source(es, name));
    }
    assert(!case_names_types(tts).contains(name));
}

/// Law (qualification): a qualified key that no instance's function list
/// defines is absent from the registry — expansion never writes a qualified
/// key.
pub proof fn lemma_qualified_key_absent(
    es: Seq<ExportView>,
    interface_name: Seq<char>,
    function_name: Seq<char>,
)
    requires
        !exports_define(es, qualified_key(interface_name, function_name)),
    ensures
        !registry_of(es).contains_key(qualified_key(interface_name, function_name)),
{
    let k = qualified_key(interface_name, function_name);
    lemma_flat_entries(Map::empty(), es);
    lemma_expand_types(flat_entries(Map::empty(), es), top_level_types(es));
    assert(registry_of(es) == expand_types(flat_entries(Map::empty(), es), top_level_types(es)));
    assert(!flat_entries(Map::<KeyView, ValueView>::empty(), es).contains_key(k));
}

/// Law (qualification): expansion never rewrites an interface-qualified
/// binding — the value the final registry holds under a qualified key is
/// exactly the value the flat pass over the exports wrote there.
pub proof fn lemma_qualified_value_from_flat(
    es: Seq<ExportView>,
    interface_name: Seq<char>,
    function_name: Seq<char>,
)
    requires
        registry_of(es).contains_key(qualified_key(interface_name, function_name)),
    ensures
        flat_entries(Map::empty(), es).contains_key(qualified_key(interface_name, function_name)),
        registry_of(es)[qualified_key(interface_name, function_name)] == flat_entries(
            Map::<KeyView, ValueView>::empty(),
            es,
        )[qualified_key(interface_name, function_name)],
{
    let k = qualified_key(interface_name, function_name);
    let flat = flat_entries(Map::<KeyView, ValueView>::empty(), es);
    lemma_expand_types(flat, top_level_types(es));
    assert(registry_of(es) == expand_types(flat, top_level_types(es)));
    assert(flat.contains_key(k));
    assert(expand_types(flat, top_level_types(es))[k] == flat[k]);
}

/// Law (constructor discovery is transitive): every case name of every
/// variant or enum reachable — through records, tuples, lists, options and
/// results — from any type mentioned as a parameter or return type anywhere
/// in the exports is registered under its bare name.
pub proof fn lemma_constructor_discovery(es: Seq<ExportView>, t: TypeView, name: Seq<char>)
    requires
        exports_mention(es, t),
        case_names(t).contains(name),
    ensures
        registry_of(es).contains_key(plain_key(name)),
{
    let flat = flat_entries(Map::<KeyView, ValueView>::empty(), es);
    let tts = top_level_types(es);
    lemma_collect_types(Seq::empty(), es);
    assert(tts.contains(t));
    lemma_case_names_types_members(tts);
    let i = choose|i: int| 0 <= i < tts.len() && tts[i] == t;
    assert(case_names(tts[i]).contains(name));
    assert(case_names_types(tts).contains(name));
    lemma_expand_types(flat, tts);
    assert(registry_of(es) == expand_types(flat, tts));
}

/// Law (payload-arity fidelity, soundness): in a built registry, every
/// `Variant` entry sits under a bare case name, holds exactly one parameter
/// type, and that type is the declared payload of a case of that name in
/// the variant type the entry carries.
pub proof fn lemma_payload_arity(es: Seq<ExportView>)
    ensures
        map_justified(registry_of(es)),
{
    assert(map_justified(Map::<KeyView, ValueView>::empty()));
    lemma_flat_entries_justified(Map::empty(), es);
    lemma_expand_types_justified(flat_entries(Map::empty(), es), top_level_types(es));
    assert(registry_of(es) == expand_types(flat_entries(Map::empty(), es), top_level_types(es)));
}

/// The entry registered for a variant case, read off the expansion of its
/// variant type: the case named by the key — the last one of that name, if
/// the variant repeats a case name — with a payload gives a `Variant` entry
/// holding exactly that payload; without one, a `Value` entry holding the
/// whole variant type.
proof fn lemma_register_cases_value(
    m: Map<KeyView, ValueView>,
    whole: TypeView,
    all_cases: Seq<CaseView>,
    cs: Seq<CaseView>,
    i: int,
)
    requires
        0 <= i < cs.len(),
        forall|j: int| i < j < cs.len() ==> (#[trigger] cs[j]).name != cs[i].name,
    ensures
        register_cases(m, whole, all_cases, cs).contains_key(plain_key(cs[i].name)),
        register_cases(m, whole, all_cases, cs)[plain_key(cs[i].name)] == case_entry(
            whole,
            all_cases,
            cs[i],
        ),
    decreases cs.len(),
{
    let reg = register_cases(m, whole, all_cases, cs);
    let regd = register_cases(m, whole, all_cases, cs.drop_last());
    assert(reg == regd.insert(
        KeyView::FunctionName { name: cs.last().name },
        case_entry(whole, all_cases, cs.last()),
    ));
    if i == cs.len() - 1 {
        assert(cs.last() == cs[i]);
    } else {
        assert forall|j: int| i < j < cs.drop_last().len() implies (
        #[trigger] cs.drop_last()[j]).name != cs.drop_last()[i].name by {
            assert(cs.drop_last()[j] == cs[j]);
        }
        lemma_register_cases_value(m, whole, all_cases, cs.drop_last(), i);
        assert(cs.drop_last()[i] == cs[i]);
        assert(cs[cs.len() - 1].name != cs[i].name);
        assert(plain_key(cs[i].name) != KeyView::FunctionName { name: cs.last().name });
    }
}

/// Law (payload-arity fidelity, exactness): expanding a variant type binds
/// each case name — taking the last case of that name, if the variant
/// repeats one — to exactly the entry its declaration calls for: a
/// `Variant` entry holding the declared payload alone, or a `Value` entry
/// holding the whole variant type for a payloadless case.
pub proof fn lemma_variant_case_entry(m: Map<KeyView, ValueView>, cases: Seq<CaseView>, i: int)
    requires
        0 <= i < cases.len(),
        forall|j: int| i < j < cases.len() ==> (#[trigger] cases[j]).name != cases[i].name,
    ensures
        expand_type(m, TypeView::Variant { cases }).contains_key(plain_key(cases[i].name)),
        expand_type(m, TypeView::Variant { cases })[plain_key(cases[i].name)] == case_entry(
            TypeView::Variant { cases },
            cases,
            cases[i],
        ),
{
    lemma_register_cases_value(m, TypeView::Variant { cases }, cases, cases, i);
    assert(expand_type(m, TypeView::Variant { cases }) == register_cases(
        m,
        TypeView::Variant { cases },
        cases,
        cases,
    ));
}

/// Law (payload-arity fidelity, enum side): expanding an enum type binds
/// each of its case names to a `Value` entry holding the whole enum type.
pub proof fn lemma_enum_case_entry(m: Map<KeyView, ValueView>, names: Seq<Seq<char>>, i: int)
    requires
        0 <= i < names.len(),
    ensures
        expand_type(m, TypeView::Enum { names }).contains_key(plain_key(names[i])),
        expand_type(m, TypeView::Enum { names })[plain_key(names[i])] == (ValueView::Value {
            typ: TypeView::Enum { names },
        }),
{
    lemma_register_enum_cases_value(m, TypeView::Enum { names }, names, i);
    assert(expand_type(m, TypeView::Enum { names }) == register_enum_cases(
        m,
        TypeView::Enum { names },
        names,
    ));
}

/// Each registered enum case name is bound to a `Value` entry holding the
/// whole enum type; repeats of a name overwrite with the same entry.
proof fn lemma_register_enum_cases_value(
    m: Map<KeyView, ValueView>,
    whole: TypeView,
    names: Seq<Seq<char>>,
    i: int,
)
    requires
        0 <= i < names.len(),
    ensures
        register_enum_cases(m, whole, names).contains_key(plain_key(names[i])),
        register_enum_cases(m, whole, names)[plain_key(names[i])] == (ValueView::Value {
            typ: whole,
        }),
    decreases names.len(),
{
    let reg = register_enum_cases(m, whole, names);
    let regd = register_enum_cases(m, whole, names.drop_last());
    assert(reg == regd.insert(
        KeyView::FunctionName { name: names.last() },
        ValueView::Value { typ: whole },
    ));
    if i < names.len() - 1 {
        lemma_register_enum_cases_value(m, whole, names.drop_last(), i);
        assert(names.drop_last()[i] == names[i]);
    } else {
        assert(names.last() == names[i]);
    }
}

} // verus!
