//! The call reference model: the parsed identity of a call expression,
//! before type checking — a function reference that may carry an
//! interface-qualifying site, or a bare constructor reference.

use vstd::prelude::*;

verus! {

/// Where a referenced function is declared: at the top level, or inside a
/// named interface instance.
#[derive(Debug, PartialEq)]
pub enum ParsedFunctionSite {
    Global,
    Interface { name: String },
}

/// A parsed function reference: a site and a function name.
#[derive(Debug, PartialEq)]
pub struct ParsedFunctionName {
    pub site: ParsedFunctionSite,
    pub function: String,
}

/// A parsed call reference: a function, or a variant or enum constructor.
#[derive(Debug, PartialEq)]
pub enum CallType {
    Function(ParsedFunctionName),
    VariantConstructor(String),
    EnumConstructor(String),
}

/// Mathematical view of a function site.
#[verifier::ext_equal]
pub enum SiteView {
    Global,
    Interface { name: Seq<char> },
}

/// Mathematical view of a parsed function reference.
#[verifier::ext_equal]
pub struct FunctionNameView {
    pub site: SiteView,
    pub function: Seq<char>,
}

/// Mathematical view of a call reference.
#[verifier::ext_equal]
pub enum CallView {
    Function(FunctionNameView),
    VariantConstructor(Seq<char>),
    EnumConstructor(Seq<char>),
}

pub open spec fn site_view(s: ParsedFunctionSite) -> SiteView {
    match s {
        ParsedFunctionSite::Global => SiteView::Global,
        ParsedFunctionSite::Interface { name } => SiteView::Interface { name: name@ },
    }
}

pub open spec fn function_name_view(f: ParsedFunctionName) -> FunctionNameView {
    FunctionNameView { site: site_view(f.site), function: f.function@ }
}

pub open spec fn call_view(c: CallType) -> CallView {
    match c {
        CallType::Function(f) => CallView::Function(function_name_view(f)),
        CallType::VariantConstructor(n) => CallView::VariantConstructor(n@),
        CallType::EnumConstructor(n) => CallView::EnumConstructor(n@),
    }
}

/// The interface name a site contributes to a registry key, if any.
pub open spec fn site_interface_name(s: SiteView) -> Option<Seq<char>> {
    match s {
        SiteView::Global => None,
        SiteView::Interface { name } => Some(name),
    }
}

impl View for ParsedFunctionSite {
    type V = SiteView;

    open spec fn view(&self) -> SiteView {
        site_view(*self)
    }
}

impl View for ParsedFunctionName {
    type V = FunctionNameView;

    open spec fn view(&self) -> FunctionNameView {
        function_name_view(*self)
    }
}

impl View for CallType {
    type V = CallView;

    open spec fn view(&self) -> CallView {
        call_view(*self)
    }
}

impl ParsedFunctionSite {
    /// The interface name that qualifies functions declared at this site:
    /// present for an interface site, absent for the global site.
    pub fn interface_name(&self) -> (r: Option<String>)
        ensures
            match r {
                Some(n) => site_interface_name(self@) == Some(n@),
                None => site_interface_name(self@) is None,
            },
    {
        match self {
            ParsedFunctionSite::Global => None,
            ParsedFunctionSite::Interface { name } => Some(name.clone()),
        }
    }
}

impl ParsedFunctionName {
    /// The referenced function's own (unqualified) name.
    pub fn function_name(&self) -> (r: String)
        ensures
            r@ == self@.function,
    {
        self.function.clone()
    }
}

} // verus!
