//! The export metadata model: the list of symbols a component interface
//! exports, either as top-level functions or grouped into named interface
//! instances.

use vstd::prelude::*;
use crate::types::{AnalysedType, TypeView, type_view};

verus! {

/// One named parameter of an exported function.
#[derive(Debug, PartialEq)]
pub struct AnalysedFunctionParameter {
    pub name: String,
    pub typ: AnalysedType,
}

/// One return value of an exported function; its name is optional.
#[derive(Debug, PartialEq)]
pub struct AnalysedFunctionResult {
    pub name: Option<String>,
    pub typ: AnalysedType,
}

/// An exported function: a name, ordered parameters and ordered returns.
#[derive(Debug, PartialEq)]
pub struct AnalysedFunction {
    pub name: String,
    pub parameters: Vec<AnalysedFunctionParameter>,
    pub results: Vec<AnalysedFunctionResult>,
}

/// A named interface instance grouping several exported functions.
#[derive(Debug, PartialEq)]
pub struct AnalysedInstance {
    pub name: String,
    pub functions: Vec<AnalysedFunction>,
}

/// One exported symbol: a top-level function or an interface instance.
#[derive(Debug, PartialEq)]
pub enum AnalysedExport {
    Function(AnalysedFunction),
    Instance(AnalysedInstance),
}

/// Mathematical view of one function parameter.
#[verifier::ext_equal]
pub struct ParamView {
    pub name: Seq<char>,
    pub typ: TypeView,
}

/// Mathematical view of one function result.
#[verifier::ext_equal]
pub struct ResultView {
    pub name: Option<Seq<char>>,
    pub typ: TypeView,
}

/// Mathematical view of an exported function.
#[verifier::ext_equal]
pub struct FunctionView {
    pub name: Seq<char>,
    pub parameters: Seq<ParamView>,
    pub results: Seq<ResultView>,
}

/// Mathematical view of an interface instance.
#[verifier::ext_equal]
pub struct InstanceView {
    pub name: Seq<char>,
    pub functions: Seq<FunctionView>,
}

/// Mathematical view of one exported symbol.
#[verifier::ext_equal]
pub enum ExportView {
    Function(FunctionView),
    Instance(InstanceView),
}

pub open spec fn param_view(p: AnalysedFunctionParameter) -> ParamView {
    ParamView { name: p.name@, typ: type_view(p.typ) }
}

pub open spec fn result_view(r: AnalysedFunctionResult) -> ResultView {
    ResultView {
        name: match r.name {
            Some(n) => Some(n@),
            None => None,
        },
        typ: type_view(r.typ),
    }
}

pub open spec fn params_view(s: Seq<AnalysedFunctionParameter>) -> Seq<ParamView> {
    Seq::new(s.len(), |i: int| param_view(s[i]))
}

pub open spec fn results_view(s: Seq<AnalysedFunctionResult>) -> Seq<ResultView> {
    Seq::new(s.len(), |i: int| result_view(s[i]))
}

pub open spec fn function_view(f: AnalysedFunction) -> FunctionView {
    FunctionView {
        name: f.name@,
        parameters: params_view(f.parameters@),
        results: results_view(f.results@),
    }
}

pub open spec fn functions_view(s: Seq<AnalysedFunction>) -> Seq<FunctionView> {
    Seq::new(s.len(), |i: int| function_view(s[i]))
}

pub open spec fn instance_view(inst: AnalysedInstance) -> InstanceView {
    InstanceView { name: inst.name@, functions: functions_view(inst.functions@) }
}

pub open spec fn export_view(e: AnalysedExport) -> ExportView {
    match e {
        AnalysedExport::Function(f) => ExportView::Function(function_view(f)),
        AnalysedExport::Instance(inst) => ExportView::Instance(instance_view(inst)),
    }
}

pub open spec fn exports_view(s: Seq<AnalysedExport>) -> Seq<ExportView> {
    Seq::new(s.len(), |i: int| export_view(s[i]))
}

impl View for AnalysedFunctionParameter {
    type V = ParamView;

    open spec fn view(&self) -> ParamView {
        param_view(*self)
    }
}

impl View for AnalysedFunctionResult {
    type V = ResultView;

    open spec fn view(&self) -> ResultView {
        result_view(*self)
    }
}

impl View for AnalysedFunction {
    type V = FunctionView;

    open spec fn view(&self) -> FunctionView {
        function_view(*self)
    }
}

impl View for AnalysedInstance {
    type V = InstanceView;

    open spec fn view(&self) -> InstanceView {
        instance_view(*self)
    }
}

impl View for AnalysedExport {
    type V = ExportView;

    open spec fn view(&self) -> ExportView {
        export_view(*self)
    }
}

} // verus!
