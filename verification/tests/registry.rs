use rib_registry::call_type::{CallType, ParsedFunctionName, ParsedFunctionSite};
use rib_registry::exports::{
    AnalysedExport, AnalysedFunction, AnalysedFunctionParameter, AnalysedFunctionResult,
    AnalysedInstance,
};
use rib_registry::keys::{RegistryKey, RegistryValue};
use rib_registry::registry::FunctionTypeRegistry;
use rib_registry::types::{AnalysedType, NameOptionTypePair, NameTypePair, TypeVariant};

fn s(x: &str) -> String {
    x.to_string()
}

fn param(name: &str, typ: AnalysedType) -> AnalysedFunctionParameter {
    AnalysedFunctionParameter { name: s(name), typ }
}

fn result(typ: AnalysedType) -> AnalysedFunctionResult {
    AnalysedFunctionResult { name: None, typ }
}

fn func(
    name: &str,
    parameters: Vec<AnalysedFunctionParameter>,
    results: Vec<AnalysedFunctionResult>,
) -> AnalysedFunction {
    AnalysedFunction { name: s(name), parameters, results }
}

fn case(name: &str, typ: Option<AnalysedType>) -> NameOptionTypePair {
    NameOptionTypePair { name: s(name), typ }
}

fn field(name: &str, typ: AnalysedType) -> NameTypePair {
    NameTypePair { name: s(name), typ }
}

fn plain(name: &str) -> RegistryKey {
    RegistryKey::FunctionName(s(name))
}

fn qualified(interface: &str, function: &str) -> RegistryKey {
    RegistryKey::FunctionNameWithInterface {
        interface_name: s(interface),
        function_name: s(function),
    }
}

fn shape_variant() -> TypeVariant {
    TypeVariant {
        cases: vec![
            case("circle", Some(AnalysedType::F64)),
            case("square", Some(AnalysedType::F64)),
            case("none", None),
        ],
    }
}

fn shape_record() -> AnalysedType {
    AnalysedType::Record(vec![field("area", AnalysedType::F64)])
}

fn calculator_exports() -> Vec<AnalysedExport> {
    vec![
        AnalysedExport::Instance(AnalysedInstance {
            name: s("calculator"),
            functions: vec![func(
                "add",
                vec![param("a", AnalysedType::S32), param("b", AnalysedType::S32)],
                vec![result(AnalysedType::S32)],
            )],
        }),
        AnalysedExport::Function(func(
            "make_shape",
            vec![param("kind", AnalysedType::Variant(shape_variant()))],
            vec![result(shape_record())],
        )),
    ]
}

#[test]
fn calculator_qualified_function_entry() {
    let registry = FunctionTypeRegistry::from_export_metadata(&calculator_exports());
    let entry = registry.lookup(&qualified("calculator", "add"));
    assert_eq!(
        entry,
        Some(RegistryValue::Function {
            parameter_types: vec![AnalysedType::S32, AnalysedType::S32],
            return_types: vec![AnalysedType::S32],
        })
    );
}

#[test]
fn calculator_toplevel_function_entry() {
    let registry = FunctionTypeRegistry::from_export_metadata(&calculator_exports());
    let entry = registry.lookup(&plain("make_shape"));
    assert_eq!(
        entry,
        Some(RegistryValue::Function {
            parameter_types: vec![AnalysedType::Variant(shape_variant())],
            return_types: vec![shape_record()],
        })
    );
}

#[test]
fn calculator_variant_cases_with_payload() {
    let registry = FunctionTypeRegistry::from_export_metadata(&calculator_exports());
    for name in ["circle", "square"] {
        let entry = registry.lookup(&plain(name));
        assert_eq!(
            entry,
            Some(RegistryValue::Variant {
                parameter_types: vec![AnalysedType::F64],
                variant_type: shape_variant(),
            })
        );
    }
}

#[test]
fn calculator_nullary_case_is_value_entry() {
    let registry = FunctionTypeRegistry::from_export_metadata(&calculator_exports());
    let entry = registry.lookup(&plain("none"));
    assert_eq!(entry, Some(RegistryValue::Value(AnalysedType::Variant(shape_variant()))));
}

#[test]
fn qualified_function_not_under_bare_name() {
    let registry = FunctionTypeRegistry::from_export_metadata(&calculator_exports());
    assert_eq!(registry.lookup(&plain("add")), None);
    assert_eq!(registry.lookup(&qualified("calculator", "make_shape")), None);
}

#[test]
fn build_is_deterministic() {
    let first = FunctionTypeRegistry::from_export_metadata(&calculator_exports());
    let second = FunctionTypeRegistry::from_export_metadata(&calculator_exports());
    assert_eq!(first, second);
    assert_eq!(
        first.lookup(&plain("circle")),
        second.lookup(&plain("circle"))
    );
}

#[test]
fn registry_clone_is_equal() {
    let registry = FunctionTypeRegistry::from_export_metadata(&calculator_exports());
    assert_eq!(registry.clone(), registry);
}

#[test]
fn empty_registry_resolves_nothing() {
    let registry = FunctionTypeRegistry::empty();
    assert_eq!(registry.lookup(&plain("anything")), None);
    assert_eq!(registry.lookup(&qualified("iface", "f")), None);
    assert!(registry.get_variants().is_empty());
}

#[test]
fn deeply_nested_variant_cases_are_discovered() {
    // A variant buried inside option<list<tuple<record, result<_, enum>>>>.
    let inner_variant = TypeVariant {
        cases: vec![case("deep", Some(AnalysedType::U32)), case("flat", None)],
    };
    let record = AnalysedType::Record(vec![field(
        "payload",
        AnalysedType::Variant(inner_variant.clone()),
    )]);
    let deep_enum = AnalysedType::Enum(vec![s("red"), s("green")]);
    let nested = AnalysedType::Option(Box::new(AnalysedType::List(Box::new(
        AnalysedType::Tuple(vec![
            record,
            AnalysedType::Result { ok: None, err: Some(Box::new(deep_enum.clone())) },
        ]),
    ))));
    let exports = vec![AnalysedExport::Function(func(
        "consume",
        vec![param("x", nested)],
        vec![],
    ))];
    let registry = FunctionTypeRegistry::from_export_metadata(&exports);
    assert_eq!(
        registry.lookup(&plain("deep")),
        Some(RegistryValue::Variant {
            parameter_types: vec![AnalysedType::U32],
            variant_type: inner_variant.clone(),
        })
    );
    assert_eq!(
        registry.lookup(&plain("flat")),
        Some(RegistryValue::Value(AnalysedType::Variant(inner_variant)))
    );
    assert_eq!(registry.lookup(&plain("red")), Some(RegistryValue::Value(deep_enum.clone())));
    assert_eq!(registry.lookup(&plain("green")), Some(RegistryValue::Value(deep_enum)));
}

#[test]
fn variant_payload_is_not_expanded() {
    // A variant nested inside another variant's payload: only the outer
    // cases are registered; the inner variant's cases are not reached.
    let inner = TypeVariant { cases: vec![case("hidden", None)] };
    let outer = TypeVariant {
        cases: vec![case("wrap", Some(AnalysedType::Variant(inner)))],
    };
    let exports = vec![AnalysedExport::Function(func(
        "produce",
        vec![],
        vec![result(AnalysedType::Variant(outer))],
    ))];
    let registry = FunctionTypeRegistry::from_export_metadata(&exports);
    assert!(registry.lookup(&plain("wrap")).is_some());
    assert_eq!(registry.lookup(&plain("hidden")), None);
}

#[test]
fn payload_arity_through_argument_types() {
    let registry = FunctionTypeRegistry::from_export_metadata(&calculator_exports());
    let unary = registry.lookup(&plain("circle")).unwrap();
    assert_eq!(unary.argument_types(), vec![AnalysedType::F64]);
    let nullary = registry.lookup(&plain("none")).unwrap();
    assert_eq!(nullary.argument_types(), Vec::<AnalysedType>::new());
    let function = registry.lookup(&qualified("calculator", "add")).unwrap();
    assert_eq!(function.argument_types(), vec![AnalysedType::S32, AnalysedType::S32]);
}

#[test]
fn get_variants_covers_every_variant_entry() {
    let other_variant = TypeVariant { cases: vec![case("left", Some(AnalysedType::Str))] };
    let mut exports = calculator_exports();
    exports.push(AnalysedExport::Function(func(
        "choose_side",
        vec![param("side", AnalysedType::Variant(other_variant.clone()))],
        vec![],
    )));
    let registry = FunctionTypeRegistry::from_export_metadata(&exports);
    let variants = registry.get_variants();
    assert!(variants.contains(&shape_variant()));
    assert!(variants.contains(&other_variant));
}

#[test]
fn colliding_case_names_leave_exactly_one_entry() {
    // Two unrelated types both declare a case named "ok", with different
    // payloads; the registry keeps exactly one entry for it, matching one
    // of the two candidates.
    let first = TypeVariant { cases: vec![case("ok", Some(AnalysedType::U32))] };
    let second = TypeVariant { cases: vec![case("ok", Some(AnalysedType::Str))] };
    let exports = vec![
        AnalysedExport::Function(func(
            "a",
            vec![param("x", AnalysedType::Variant(first.clone()))],
            vec![],
        )),
        AnalysedExport::Function(func(
            "b",
            vec![param("y", AnalysedType::Variant(second.clone()))],
            vec![],
        )),
    ];
    let registry = FunctionTypeRegistry::from_export_metadata(&exports);
    let entry = registry.lookup(&plain("ok")).unwrap();
    let first_candidate = RegistryValue::Variant {
        parameter_types: vec![AnalysedType::U32],
        variant_type: first,
    };
    let second_candidate = RegistryValue::Variant {
        parameter_types: vec![AnalysedType::Str],
        variant_type: second,
    };
    assert!(entry == first_candidate || entry == second_candidate);
}

#[test]
fn later_function_with_same_name_wins() {
    let exports = vec![
        AnalysedExport::Function(func("f", vec![param("x", AnalysedType::U8)], vec![])),
        AnalysedExport::Function(func("f", vec![param("x", AnalysedType::Str)], vec![])),
    ];
    let registry = FunctionTypeRegistry::from_export_metadata(&exports);
    assert_eq!(
        registry.lookup(&plain("f")),
        Some(RegistryValue::Function {
            parameter_types: vec![AnalysedType::Str],
            return_types: vec![],
        })
    );
}

#[test]
fn leaf_types_register_nothing() {
    let exports = vec![AnalysedExport::Function(func(
        "leafy",
        vec![
            param("a", AnalysedType::Flags(vec![s("read"), s("write")])),
            param("b", AnalysedType::Str),
            param("c", AnalysedType::Handle {
                resource_id: 7,
                mode: rib_registry::types::AnalysedResourceMode::Owned,
            }),
        ],
        vec![result(AnalysedType::Chr)],
    ))];
    let registry = FunctionTypeRegistry::from_export_metadata(&exports);
    assert!(registry.lookup(&plain("leafy")).is_some());
    assert_eq!(registry.lookup(&plain("read")), None);
    assert_eq!(registry.lookup(&plain("write")), None);
    assert!(registry.get_variants().is_empty());
}

#[test]
fn duplicate_parameter_types_expand_once() {
    let colours = AnalysedType::Enum(vec![s("red"), s("blue")]);
    let exports = vec![
        AnalysedExport::Function(func("p", vec![param("x", colours.clone())], vec![])),
        AnalysedExport::Function(func(
            "q",
            vec![param("y", colours.clone())],
            vec![result(colours.clone())],
        )),
    ];
    let registry = FunctionTypeRegistry::from_export_metadata(&exports);
    assert_eq!(registry.lookup(&plain("red")), Some(RegistryValue::Value(colours.clone())));
    assert_eq!(registry.lookup(&plain("blue")), Some(RegistryValue::Value(colours)));
}

#[test]
fn from_function_name_builds_site_dependent_keys() {
    let global = ParsedFunctionSite::Global;
    let interface = ParsedFunctionSite::Interface { name: s("calculator") };
    assert_eq!(RegistryKey::from_function_name(&global, "add"), plain("add"));
    assert_eq!(
        RegistryKey::from_function_name(&interface, "add"),
        qualified("calculator", "add")
    );
}

#[test]
fn from_call_type_builds_expected_keys() {
    let variant_ref = CallType::VariantConstructor(s("circle"));
    assert_eq!(RegistryKey::from_call_type(&variant_ref), plain("circle"));
    let enum_ref = CallType::EnumConstructor(s("red"));
    assert_eq!(RegistryKey::from_call_type(&enum_ref), plain("red"));
    let global_fn = CallType::Function(ParsedFunctionName {
        site: ParsedFunctionSite::Global,
        function: s("make_shape"),
    });
    assert_eq!(RegistryKey::from_call_type(&global_fn), plain("make_shape"));
    let qualified_fn = CallType::Function(ParsedFunctionName {
        site: ParsedFunctionSite::Interface { name: s("calculator") },
        function: s("add"),
    });
    assert_eq!(RegistryKey::from_call_type(&qualified_fn), qualified("calculator", "add"));
}

#[test]
fn get_resolves_call_references() {
    let registry = FunctionTypeRegistry::from_export_metadata(&calculator_exports());
    let qualified_fn = CallType::Function(ParsedFunctionName {
        site: ParsedFunctionSite::Interface { name: s("calculator") },
        function: s("add"),
    });
    assert!(registry.get(&qualified_fn).is_some());
    let bare_fn = CallType::Function(ParsedFunctionName {
        site: ParsedFunctionSite::Global,
        function: s("make_shape"),
    });
    assert!(registry.get(&bare_fn).is_some());
    let constructor = CallType::VariantConstructor(s("circle"));
    let entry = registry.get(&constructor).unwrap();
    assert_eq!(entry.argument_types(), vec![AnalysedType::F64]);
    let unknown = CallType::EnumConstructor(s("mystery"));
    assert!(registry.get(&unknown).is_none());
    let wrong_site = CallType::Function(ParsedFunctionName {
        site: ParsedFunctionSite::Global,
        function: s("add"),
    });
    assert!(registry.get(&wrong_site).is_none());
}

#[test]
fn site_accessors_expose_interface_names() {
    let global = ParsedFunctionSite::Global;
    assert_eq!(global.interface_name(), None);
    let interface = ParsedFunctionSite::Interface { name: s("calculator") };
    assert_eq!(interface.interface_name(), Some(s("calculator")));
    let parsed = ParsedFunctionName {
        site: ParsedFunctionSite::Interface { name: s("calculator") },
        function: s("add"),
    };
    assert_eq!(parsed.function_name(), s("add"));
}

#[test]
fn result_branches_are_walked() {
    let ok_enum = AnalysedType::Enum(vec![s("yes")]);
    let err_enum = AnalysedType::Enum(vec![s("no")]);
    let exports = vec![AnalysedExport::Function(func(
        "check",
        vec![],
        vec![result(AnalysedType::Result {
            ok: Some(Box::new(ok_enum.clone())),
            err: Some(Box::new(err_enum.clone())),
        })],
    ))];
    let registry = FunctionTypeRegistry::from_export_metadata(&exports);
    assert_eq!(registry.lookup(&plain("yes")), Some(RegistryValue::Value(ok_enum)));
    assert_eq!(registry.lookup(&plain("no")), Some(RegistryValue::Value(err_enum)));

    let bare = vec![AnalysedExport::Function(func(
        "nothing",
        vec![param("x", AnalysedType::Result { ok: None, err: None })],
        vec![],
    ))];
    let registry = FunctionTypeRegistry::from_export_metadata(&bare);
    assert!(registry.lookup(&plain("nothing")).is_some());
}

#[test]
fn pinned_expansion_order_resolves_collisions_last_write_wins() {
    // Expansion runs over distinct top-level types in first-encounter
    // order, so the enum met second overwrites the variant case met first.
    let dup_variant = TypeVariant { cases: vec![case("dup", Some(AnalysedType::U32))] };
    let dup_enum = AnalysedType::Enum(vec![s("dup")]);
    let exports = vec![
        AnalysedExport::Function(func(
            "first",
            vec![param("x", AnalysedType::Variant(dup_variant))],
            vec![],
        )),
        AnalysedExport::Function(func("second", vec![param("y", dup_enum.clone())], vec![])),
    ];
    let registry = FunctionTypeRegistry::from_export_metadata(&exports);
    assert_eq!(registry.lookup(&plain("dup")), Some(RegistryValue::Value(dup_enum)));
}

#[test]
fn instance_with_several_functions_registers_each() {
    let exports = vec![AnalysedExport::Instance(AnalysedInstance {
        name: s("math"),
        functions: vec![
            func("neg", vec![param("x", AnalysedType::S64)], vec![result(AnalysedType::S64)]),
            func("abs", vec![param("x", AnalysedType::S64)], vec![result(AnalysedType::U64)]),
        ],
    })];
    let registry = FunctionTypeRegistry::from_export_metadata(&exports);
    assert_eq!(
        registry.lookup(&qualified("math", "neg")),
        Some(RegistryValue::Function {
            parameter_types: vec![AnalysedType::S64],
            return_types: vec![AnalysedType::S64],
        })
    );
    assert_eq!(
        registry.lookup(&qualified("math", "abs")),
        Some(RegistryValue::Function {
            parameter_types: vec![AnalysedType::S64],
            return_types: vec![AnalysedType::U64],
        })
    );
    assert_eq!(registry.lookup(&plain("neg")), None);
    assert_eq!(registry.lookup(&plain("abs")), None);
}

#[test]
fn get_variants_repeats_a_variant_per_payload_case() {
    // A variant with two payload cases produces two `Variant` entries, each
    // carrying the same variant type; callers needing uniqueness dedupe.
    let registry = FunctionTypeRegistry::from_export_metadata(&calculator_exports());
    let variants = registry.get_variants();
    let shape = shape_variant();
    let occurrences = variants.iter().filter(|v| **v == shape).count();
    assert_eq!(occurrences, 2);
}

#[test]
fn tuple_parameter_is_walked_directly() {
    let colours = AnalysedType::Enum(vec![s("cyan")]);
    let exports = vec![AnalysedExport::Function(func(
        "pair",
        vec![param("x", AnalysedType::Tuple(vec![AnalysedType::U8, colours.clone()]))],
        vec![],
    ))];
    let registry = FunctionTypeRegistry::from_export_metadata(&exports);
    assert_eq!(registry.lookup(&plain("cyan")), Some(RegistryValue::Value(colours)));
}
