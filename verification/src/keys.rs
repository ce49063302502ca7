//! The registry key/value model: the identity of a callable symbol and the
//! signature stored for it.

use vstd::prelude::*;
use crate::types::{
    AnalysedType, TypeVariant, TypeView, CaseView, type_view, types_view, cases_view, clone_type,
    clone_types, clone_variant,
};
use crate::call_type::{
    CallType, CallView, ParsedFunctionSite, SiteView, site_interface_name,
};

verus! {

/// The unique identity of a callable or referenceable symbol: a bare name,
/// or a function name qualified by the interface instance that exports it.
/// Constructor names are never qualified.
#[derive(Debug, PartialEq, Eq)]
pub enum RegistryKey {
    FunctionName(String),
    FunctionNameWithInterface { interface_name: String, function_name: String },
}

/// The signature associated with a registry key:
/// - `Value`: a nullary symbol (an enum case, or a variant case without a
///   payload), carrying the sum type it belongs to;
/// - `Variant`: a variant case with exactly one payload type, carrying the
///   payload as a one-element parameter list and the full owning variant
///   type;
/// - `Function`: an ordinary function signature.
#[derive(Debug, PartialEq)]
pub enum RegistryValue {
    Value(AnalysedType),
    Variant { parameter_types: Vec<AnalysedType>, variant_type: TypeVariant },
    Function { parameter_types: Vec<AnalysedType>, return_types: Vec<AnalysedType> },
}

/// Mathematical view of a registry key.
#[verifier::ext_equal]
pub enum KeyView {
    FunctionName { name: Seq<char> },
    FunctionNameWithInterface { interface_name: Seq<char>, function_name: Seq<char> },
}

/// Mathematical view of a registry value.
#[verifier::ext_equal]
pub enum ValueView {
    Value { typ: TypeView },
    Variant { parameter_types: Seq<TypeView>, variant_type: Seq<CaseView> },
    Function { parameter_types: Seq<TypeView>, return_types: Seq<TypeView> },
}

pub open spec fn key_view(k: RegistryKey) -> KeyView {
    match k {
        RegistryKey::FunctionName(name) => KeyView::FunctionName { name: name@ },
        RegistryKey::FunctionNameWithInterface { interface_name, function_name } => {
            KeyView::FunctionNameWithInterface {
                interface_name: interface_name@,
                function_name: function_name@,
            }
        }
    }
}

pub open spec fn value_view(v: RegistryValue) -> ValueView {
    match v {
        RegistryValue::Value(t) => ValueView::Value { typ: type_view(t) },
        RegistryValue::Variant { parameter_types, variant_type } => ValueView::Variant {
            parameter_types: types_view(parameter_types@),
            variant_type: cases_view(variant_type.cases@),
        },
        RegistryValue::Function { parameter_types, return_types } => ValueView::Function {
            parameter_types: types_view(parameter_types@),
            return_types: types_view(return_types@),
        },
    }
}

impl View for RegistryKey {
    type V = KeyView;

    open spec fn view(&self) -> KeyView {
        key_view(*self)
    }
}

impl View for RegistryValue {
    type V = ValueView;

    open spec fn view(&self) -> ValueView {
        value_view(*self)
    }
}

/// The key under which a function declared at `site` is registered.
pub open spec fn key_of_site(site: SiteView, function_name: Seq<char>) -> KeyView {
    match site_interface_name(site) {
        None => KeyView::FunctionName { name: function_name },
        Some(interface_name) => KeyView::FunctionNameWithInterface {
            interface_name,
            function_name,
        },
    }
}

/// The key under which a call reference is looked up: qualified for a
/// function reference with an interface site, bare otherwise; constructor
/// references always use the bare case name.
pub open spec fn key_of_call(c: CallView) -> KeyView {
    match c {
        CallView::Function(f) => key_of_site(f.site, f.function),
        CallView::VariantConstructor(name) => KeyView::FunctionName { name },
        CallView::EnumConstructor(name) => KeyView::FunctionName { name },
    }
}

/// The ordered argument types a caller must supply for a value: the
/// parameter list of a `Function`, the one-element payload list of a
/// `Variant`, and the empty sequence for a nullary `Value`.
pub open spec fn argument_types_of(v: ValueView) -> Seq<TypeView> {
    match v {
        ValueView::Function { parameter_types, .. } => parameter_types,
        ValueView::Variant { parameter_types, .. } => parameter_types,
        ValueView::Value { .. } => Seq::empty(),
    }
}

impl RegistryKey {
    /// The registry key of a function declared at `site`: qualified iff the
    /// site names an interface.
    pub fn from_function_name(site: &ParsedFunctionSite, function_name: &str) -> (r: RegistryKey)
        ensures
            r@ == key_of_site(site@, function_name@),
    {
        match site.interface_name() {
            None => RegistryKey::FunctionName(function_name.to_string()),
            Some(name) => RegistryKey::FunctionNameWithInterface {
                interface_name: name,
                function_name: function_name.to_string(),
            },
        }
    }

    /// The registry key a call reference resolves to.
    pub fn from_call_type(call_type: &CallType) -> (r: RegistryKey)
        ensures
            r@ == key_of_call(call_type@),
    {
        match call_type {
            CallType::VariantConstructor(variant_name) => {
                RegistryKey::FunctionName(variant_name.clone())
            }
            CallType::EnumConstructor(enum_name) => RegistryKey::FunctionName(enum_name.clone()),
            CallType::Function(function_name) => match function_name.site.interface_name() {
                None => RegistryKey::FunctionName(function_name.function_name()),
                Some(interface_name) => RegistryKey::FunctionNameWithInterface {
                    interface_name,
                    function_name: function_name.function_name(),
                },
            },
        }
    }
}

impl RegistryValue {
    /// The ordered argument types a call through this entry must supply:
    /// the parameter list for `Function`, the payload list for `Variant`,
    /// and no arguments for a nullary `Value`.
    pub fn argument_types(&self) -> (r: Vec<AnalysedType>)
        ensures
            types_view(r@) == argument_types_of(self@),
    {
        match self {
            RegistryValue::Function { parameter_types, return_types: _ } => {
                clone_types(parameter_types)
            }
            RegistryValue::Variant { parameter_types, variant_type: _ } => {
                clone_types(parameter_types)
            }
            RegistryValue::Value(_) => Vec::new(),
        }
    }
}

/// Equality of two registry keys, at the level of their views.
pub fn key_eq(a: &RegistryKey, b: &RegistryKey) -> (r: bool)
    ensures
        r == (a@ == b@),
{
    match (a, b) {
        (RegistryKey::FunctionName(x), RegistryKey::FunctionName(y)) => {
            let r = String::eq(x, y);
            proof {
                if r {
                    assert(a@ =~= b@);
                }
            }
            r
        }
        (
            RegistryKey::FunctionNameWithInterface { interface_name: ia, function_name: fa },
            RegistryKey::FunctionNameWithInterface { interface_name: ib, function_name: fb },
        ) => {
            let r = String::eq(ia, ib) && String::eq(fa, fb);
            proof {
                if r {
                    assert(a@ =~= b@);
                }
            }
            r
        }
        _ => false,
    }
}

/// A deep copy of a registry key, with the same view.
pub fn clone_key(k: &RegistryKey) -> (r: RegistryKey)
    ensures
        r@ == k@,
{
    match k {
        RegistryKey::FunctionName(name) => RegistryKey::FunctionName(name.clone()),
        RegistryKey::FunctionNameWithInterface { interface_name, function_name } => {
            RegistryKey::FunctionNameWithInterface {
                interface_name: interface_name.clone(),
                function_name: function_name.clone(),
            }
        }
    }
}

/// A deep copy of a registry value, with the same view.
pub fn clone_value(v: &RegistryValue) -> (r: RegistryValue)
    ensures
        r@ == v@,
{
    match v {
        RegistryValue::Value(t) => RegistryValue::Value(clone_type(t)),
        RegistryValue::Variant { parameter_types, variant_type } => {
            let r = RegistryValue::Variant {
                parameter_types: clone_types(parameter_types),
                variant_type: clone_variant(variant_type),
            };
            proof {
                assert(r@ =~= v@);
            }
            r
        }
        RegistryValue::Function { parameter_types, return_types } => {
            let r = RegistryValue::Function {
                parameter_types: clone_types(parameter_types),
                return_types: clone_types(return_types),
            };
            proof {
                assert(r@ =~= v@);
            }
            r
        }
    }
}

impl Clone for RegistryKey {
    /// A deep copy with the same view.
    fn clone(&self) -> (r: Self)
        ensures
            r@ == self@,
    {
        clone_key(self)
    }
}

impl Clone for RegistryValue {
    /// A deep copy with the same view.
    fn clone(&self) -> (r: Self)
        ensures
            r@ == self@,
    {
        clone_value(self)
    }
}

} // verus!
