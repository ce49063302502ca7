//! The structural type model: an algebraic description of the value types
//! that cross a component interface boundary, together with its mathematical
//! view (`TypeView`) used by all contracts in this crate.

use vstd::prelude::*;

verus! {

/// Whether a handle type owns or borrows its resource.
#[derive(Clone, Copy, Debug, PartialEq, Eq, Structural)]
pub enum AnalysedResourceMode {
    Owned,
    Borrowed,
}

/// One case of a variant type: a name and an optional payload type.
#[derive(Debug, PartialEq)]
pub struct NameOptionTypePair {
    pub name: String,
    pub typ: Option<AnalysedType>,
}

/// One field of a record type: a name and a type.
#[derive(Debug, PartialEq)]
pub struct NameTypePair {
    pub name: String,
    pub typ: AnalysedType,
}

/// A variant type: a sum type whose cases may carry one payload each.
#[derive(Debug, PartialEq)]
pub struct TypeVariant {
    pub cases: Vec<NameOptionTypePair>,
}

/// A structural type descriptor.
#[derive(Debug, PartialEq)]
pub enum AnalysedType {
    Variant(TypeVariant),
    Result { ok: Option<Box<AnalysedType>>, err: Option<Box<AnalysedType>> },
    Option(Box<AnalysedType>),
    Enum(Vec<String>),
    Flags(Vec<String>),
    Record(Vec<NameTypePair>),
    Tuple(Vec<AnalysedType>),
    List(Box<AnalysedType>),
    Str,
    Chr,
    F64,
    F32,
    U64,
    S64,
    U32,
    S32,
    U16,
    S16,
    U8,
    S8,
    Bool,
    Handle { resource_id: u64, mode: AnalysedResourceMode },
}

/// Mathematical view of one variant case.
#[verifier::ext_equal]
pub struct CaseView {
    pub name: Seq<char>,
    pub typ: Option<TypeView>,
}

/// Mathematical view of one record field.
#[verifier::ext_equal]
pub struct FieldView {
    pub name: Seq<char>,
    pub typ: TypeView,
}

/// Mathematical view of a structural type descriptor.
#[verifier::ext_equal]
pub enum TypeView {
    Variant { cases: Seq<CaseView> },
    Result { ok: Option<Box<TypeView>>, err: Option<Box<TypeView>> },
    Option { inner: Box<TypeView> },
    Enum { names: Seq<Seq<char>> },
    Flags { names: Seq<Seq<char>> },
    Record { fields: Seq<FieldView> },
    Tuple { items: Seq<TypeView> },
    List { inner: Box<TypeView> },
    Str,
    Chr,
    F64,
    F32,
    U64,
    S64,
    U32,
    S32,
    U16,
    S16,
    U8,
    S8,
    Bool,
    Handle { resource_id: u64, mode: AnalysedResourceMode },
}

pub open spec fn names_view(s: Seq<String>) -> Seq<Seq<char>> {
    Seq::new(s.len(), |i: int| s[i]@)
}

pub open spec fn type_view(t: AnalysedType) -> TypeView
    decreases t,
{
    match t {
        AnalysedType::Variant(tv) => TypeView::Variant { cases: cases_view(tv.cases@) },
        AnalysedType::Result { ok, err } => TypeView::Result {
            ok: match ok {
                Some(b) => Some(Box::new(type_view(*b))),
                None => None,
            },
            err: match err {
                Some(b) => Some(Box::new(type_view(*b))),
                None => None,
            },
        },
        AnalysedType::Option(inner) => TypeView::Option { inner: Box::new(type_view(*inner)) },
        AnalysedType::Enum(cases) => TypeView::Enum { names: names_view(cases@) },
        AnalysedType::Flags(names) => TypeView::Flags { names: names_view(names@) },
        AnalysedType::Record(fields) => TypeView::Record { fields: fields_view(fields@) },
        AnalysedType::Tuple(items) => TypeView::Tuple { items: types_view(items@) },
        AnalysedType::List(inner) => TypeView::List { inner: Box::new(type_view(*inner)) },
        AnalysedType::Str => TypeView::Str,
        AnalysedType::Chr => TypeView::Chr,
        AnalysedType::F64 => TypeView::F64,
        AnalysedType::F32 => TypeView::F32,
        AnalysedType::U64 => TypeView::U64,
        AnalysedType::S64 => TypeView::S64,
        AnalysedType::U32 => TypeView::U32,
        AnalysedType::S32 => TypeView::S32,
        AnalysedType::U16 => TypeView::U16,
        AnalysedType::S16 => TypeView::S16,
        AnalysedType::U8 => TypeView::U8,
        AnalysedType::S8 => TypeView::S8,
        AnalysedType::Bool => TypeView::Bool,
        AnalysedType::Handle { resource_id, mode } => TypeView::Handle { resource_id, mode },
    }
}

pub open spec fn case_view(c: NameOptionTypePair) -> CaseView
    decreases c,
{
    CaseView {
        name: c.name@,
        typ: match c.typ {
            Some(t) => Some(type_view(t)),
            None => None,
        },
    }
}

pub open spec fn field_view(f: NameTypePair) -> FieldView
    decreases f,
{
    FieldView { name: f.name@, typ: type_view(f.typ) }
}

pub open spec fn cases_view(s: Seq<NameOptionTypePair>) -> Seq<CaseView>
    decreases s,
{
    if s.len() == 0 {
        Seq::empty()
    } else {
        cases_view(s.drop_last()).push(case_view(s.last()))
    }
}

pub open spec fn fields_view(s: Seq<NameTypePair>) -> Seq<FieldView>
    decreases s,
{
    if s.len() == 0 {
        Seq::empty()
    } else {
        fields_view(s.drop_last()).push(field_view(s.last()))
    }
}

pub open spec fn types_view(s: Seq<AnalysedType>) -> Seq<TypeView>
    decreases s,
{
    if s.len() == 0 {
        Seq::empty()
    } else {
        types_view(s.drop_last()).push(type_view(s.last()))
    }
}

/// `cases_view` maps `case_view` over the sequence, element by element.
pub proof fn lemma_cases_view(s: Seq<NameOptionTypePair>)
    ensures
        cases_view(s).len() == s.len(),
        forall|i: int| 0 <= i < s.len() ==> cases_view(s)[i] == case_view(s[i]),
    decreases s.len(),
{
    if s.len() > 0 {
        lemma_cases_view(s.drop_last());
    }
}

/// `fields_view` maps `field_view` over the sequence, element by element.
pub proof fn lemma_fields_view(s: Seq<NameTypePair>)
    ensures
        fields_view(s).len() == s.len(),
        forall|i: int| 0 <= i < s.len() ==> fields_view(s)[i] == field_view(s[i]),
    decreases s.len(),
{
    if s.len() > 0 {
        lemma_fields_view(s.drop_last());
    }
}

/// `types_view` maps `type_view` over the sequence, element by element.
pub proof fn lemma_types_view(s: Seq<AnalysedType>)
    ensures
        types_view(s).len() == s.len(),
        forall|i: int| 0 <= i < s.len() ==> types_view(s)[i] == type_view(s[i]),
    decreases s.len(),
{
    if s.len() > 0 {
        lemma_types_view(s.drop_last());
    }
}

/// Structural equality of two string lists, at the level of their views.
pub fn strings_eq(x: &Vec<String>, y: &Vec<String>) -> (r: bool)
    ensures
        r == (names_view(x@) == names_view(y@)),
{
    if x.len() != y.len() {
        return false;
    }
    let mut i: usize = 0;
    while i < x.len()
        invariant
            x@.len() == y@.len(),
            i <= x@.len(),
            forall|j: int| 0 <= j < i ==> x@[j]@ == y@[j]@,
        decreases x@.len() - i,
    {
        if !(x[i] == y[i]) {
            proof {
                assert(names_view(x@)[i as int] != names_view(y@)[i as int]);
            }
            return false;
        }
        i += 1;
    }
    proof {
        assert(names_view(x@) =~= names_view(y@));
    }
    true
}

/// Structural equality of two type descriptors: `true` iff their views agree.
pub fn type_eq(a: &AnalysedType, b: &AnalysedType) -> (r: bool)
    ensures
        r == (a@ == b@),
    decreases *a,
{
    match (a, b) {
        (AnalysedType::Variant(x), AnalysedType::Variant(y)) => variant_eq(x, y),
        (
            AnalysedType::Result { ok: ok_a, err: err_a },
            AnalysedType::Result { ok: ok_b, err: err_b },
        ) => {
            let ok_eq = match (ok_a, ok_b) {
                (Some(x), Some(y)) => type_eq(x, y),
                (None, None) => true,
                _ => false,
            };
            let err_eq = match (err_a, err_b) {
                (Some(x), Some(y)) => type_eq(x, y),
                (None, None) => true,
                _ => false,
            };
            let r = ok_eq && err_eq;
            proof {
                if r {
                    assert(a@ =~= b@);
                }
            }
            r
        }
        (AnalysedType::Option(x), AnalysedType::Option(y)) => {
            let r = type_eq(x, y);
            proof {
                if r {
                    assert(a@ =~= b@);
                }
            }
            r
        }
        (AnalysedType::Enum(x), AnalysedType::Enum(y)) => {
            let r = strings_eq(x, y);
            proof {
                if r {
                    assert(a@ =~= b@);
                }
            }
            r
        }
        (AnalysedType::Flags(x), AnalysedType::Flags(y)) => {
            let r = strings_eq(x, y);
            proof {
                if r {
                    assert(a@ =~= b@);
                }
            }
            r
        }
        (AnalysedType::Record(x), AnalysedType::Record(y)) => {
            let r = fields_eq(x, y);
            proof {
                if r {
                    assert(a@ =~= b@);
                }
            }
            r
        }
        (AnalysedType::Tuple(x), AnalysedType::Tuple(y)) => {
            let r = types_eq(x, y);
            proof {
                if r {
                    assert(a@ =~= b@);
                }
            }
            r
        }
        (AnalysedType::List(x), AnalysedType::List(y)) => {
            let r = type_eq(x, y);
            proof {
                if r {
                    assert(a@ =~= b@);
                }
            }
            r
        }
        (AnalysedType::Str, AnalysedType::Str) => true,
        (AnalysedType::Chr, AnalysedType::Chr) => true,
        (AnalysedType::F64, AnalysedType::F64) => true,
        (AnalysedType::F32, AnalysedType::F32) => true,
        (AnalysedType::U64, AnalysedType::U64) => true,
        (AnalysedType::S64, AnalysedType::S64) => true,
        (AnalysedType::U32, AnalysedType::U32) => true,
        (AnalysedType::S32, AnalysedType::S32) => true,
        (AnalysedType::U16, AnalysedType::U16) => true,
        (AnalysedType::S16, AnalysedType::S16) => true,
        (AnalysedType::U8, AnalysedType::U8) => true,
        (AnalysedType::S8, AnalysedType::S8) => true,
        (AnalysedType::Bool, AnalysedType::Bool) => true,
        (
            AnalysedType::Handle { resource_id: id_a, mode: mode_a },
            AnalysedType::Handle { resource_id: id_b, mode: mode_b },
        ) => *id_a == *id_b && *mode_a == *mode_b,
        _ => false,
    }
}

/// Structural equality of two variant cases: `true` iff their views agree.
pub fn case_eq(a: &NameOptionTypePair, b: &NameOptionTypePair) -> (r: bool)
    ensures
        r == (a@ == b@),
    decreases *a,
{
    if !(a.name == b.name) {
        return false;
    }
    match (&a.typ, &b.typ) {
        (Some(x), Some(y)) => {
            let r = type_eq(x, y);
            proof {
                if r {
                    assert(a@ =~= b@);
                }
            }
            r
        }
        (None, None) => {
            proof {
                assert(a@ =~= b@);
            }
            true
        }
        _ => false,
    }
}

/// Structural equality of two case lists, at the level of their views.
pub fn cases_eq(x: &Vec<NameOptionTypePair>, y: &Vec<NameOptionTypePair>) -> (r: bool)
    ensures
        r == (cases_view(x@) == cases_view(y@)),
    decreases x@,
{
    proof {
        lemma_cases_view(x@);
        lemma_cases_view(y@);
    }
    if x.len() != y.len() {
        return false;
    }
    let mut i: usize = 0;
    while i < x.len()
        invariant
            x@.len() == y@.len(),
            i <= x@.len(),
            cases_view(x@).len() == x@.len(),
            cases_view(y@).len() == y@.len(),
            forall|j: int| 0 <= j < x@.len() ==> cases_view(x@)[j] == case_view(x@[j]),
            forall|j: int| 0 <= j < y@.len() ==> cases_view(y@)[j] == case_view(y@[j]),
            forall|j: int| 0 <= j < i ==> case_view(x@[j]) == case_view(y@[j]),
        decreases x@.len() - i,
    {
        if !case_eq(&x[i], &y[i]) {
            proof {
                assert(cases_view(x@)[i as int] != cases_view(y@)[i as int]);
            }
            return false;
        }
        i += 1;
    }
    proof {
        assert(cases_view(x@) =~= cases_view(y@));
    }
    true
}

/// Structural equality of two variant types: `true` iff their views agree.
pub fn variant_eq(x: &TypeVariant, y: &TypeVariant) -> (r: bool)
    ensures
        r == (x@ == y@),
    decreases *x,
{
    cases_eq(&x.cases, &y.cases)
}

/// Structural equality of two record fields: `true` iff their views agree.
pub fn field_eq(a: &NameTypePair, b: &NameTypePair) -> (r: bool)
    ensures
        r == (a@ == b@),
    decreases *a,
{
    if !(a.name == b.name) {
        return false;
    }
    let r = type_eq(&a.typ, &b.typ);
    proof {
        if r {
            assert(a@ =~= b@);
        }
    }
    r
}

/// Structural equality of two field lists, at the level of their views.
pub fn fields_eq(x: &Vec<NameTypePair>, y: &Vec<NameTypePair>) -> (r: bool)
    ensures
        r == (fields_view(x@) == fields_view(y@)),
    decreases x@,
{
    proof {
        lemma_fields_view(x@);
        lemma_fields_view(y@);
    }
    if x.len() != y.len() {
        return false;
    }
    let mut i: usize = 0;
    while i < x.len()
        invariant
            x@.len() == y@.len(),
            i <= x@.len(),
            fields_view(x@).len() == x@.len(),
            fields_view(y@).len() == y@.len(),
            forall|j: int| 0 <= j < x@.len() ==> fields_view(x@)[j] == field_view(x@[j]),
            forall|j: int| 0 <= j < y@.len() ==> fields_view(y@)[j] == field_view(y@[j]),
            forall|j: int| 0 <= j < i ==> field_view(x@[j]) == field_view(y@[j]),
        decreases x@.len() - i,
    {
        if !field_eq(&x[i], &y[i]) {
            proof {
                assert(fields_view(x@)[i as int] != fields_view(y@)[i as int]);
            }
            return false;
        }
        i += 1;
    }
    proof {
        assert(fields_view(x@) =~= fields_view(y@));
    }
    true
}

/// Structural equality of two type lists, at the level of their views.
pub fn types_eq(x: &Vec<AnalysedType>, y: &Vec<AnalysedType>) -> (r: bool)
    ensures
        r == (types_view(x@) == types_view(y@)),
    decreases x@,
{
    proof {
        lemma_types_view(x@);
        lemma_types_view(y@);
    }
    if x.len() != y.len() {
        return false;
    }
    let mut i: usize = 0;
    while i < x.len()
        invariant
            x@.len() == y@.len(),
            i <= x@.len(),
            types_view(x@).len() == x@.len(),
            types_view(y@).len() == y@.len(),
            forall|j: int| 0 <= j < x@.len() ==> types_view(x@)[j] == type_view(x@[j]),
            forall|j: int| 0 <= j < y@.len() ==> types_view(y@)[j] == type_view(y@[j]),
            forall|j: int| 0 <= j < i ==> type_view(x@[j]) == type_view(y@[j]),
        decreases x@.len() - i,
    {
        if !type_eq(&x[i], &y[i]) {
            proof {
                assert(types_view(x@)[i as int] != types_view(y@)[i as int]);
            }
            return false;
        }
        i += 1;
    }
    proof {
        assert(types_view(x@) =~= types_view(y@));
    }
    true
}

/// A deep copy of a string list; the copy is equal to the original.
pub fn clone_strings(v: &Vec<String>) -> (r: Vec<String>)
    ensures
        r@ == v@,
{
    let mut out: Vec<String> = Vec::new();
    let mut i: usize = 0;
    while i < v.len()
        invariant
            i <= v@.len(),
            out@.len() == i,
            forall|j: int| 0 <= j < i ==> out@[j] == v@[j],
        decreases v@.len() - i,
    {
        out.push(v[i].clone());
        i += 1;
    }
    proof {
        assert(out@ =~= v@);
    }
    out
}

/// A deep copy of a type descriptor, with the same view.
pub fn clone_type(t: &AnalysedType) -> (r: AnalysedType)
    ensures
        r@ == t@,
    decreases *t,
{
    match t {
        AnalysedType::Variant(tv) => AnalysedType::Variant(clone_variant(tv)),
        AnalysedType::Result { ok, err } => {
            let ok2 = match ok {
                Some(b) => Some(Box::new(clone_type(b))),
                None => None,
            };
            let err2 = match err {
                Some(b) => Some(Box::new(clone_type(b))),
                None => None,
            };
            let r = AnalysedType::Result { ok: ok2, err: err2 };
            proof {
                assert(r@ =~= t@);
            }
            r
        }
        AnalysedType::Option(inner) => AnalysedType::Option(Box::new(clone_type(inner))),
        AnalysedType::Enum(cases) => AnalysedType::Enum(clone_strings(cases)),
        AnalysedType::Flags(names) => AnalysedType::Flags(clone_strings(names)),
        AnalysedType::Record(fields) => AnalysedType::Record(clone_fields(fields)),
        AnalysedType::Tuple(items) => AnalysedType::Tuple(clone_types(items)),
        AnalysedType::List(inner) => AnalysedType::List(Box::new(clone_type(inner))),
        AnalysedType::Str => AnalysedType::Str,
        AnalysedType::Chr => AnalysedType::Chr,
        AnalysedType::F64 => AnalysedType::F64,
        AnalysedType::F32 => AnalysedType::F32,
        AnalysedType::U64 => AnalysedType::U64,
        AnalysedType::S64 => AnalysedType::S64,
        AnalysedType::U32 => AnalysedType::U32,
        AnalysedType::S32 => AnalysedType::S32,
        AnalysedType::U16 => AnalysedType::U16,
        AnalysedType::S16 => AnalysedType::S16,
        AnalysedType::U8 => AnalysedType::U8,
        AnalysedType::S8 => AnalysedType::S8,
        AnalysedType::Bool => AnalysedType::Bool,
        AnalysedType::Handle { resource_id, mode } => AnalysedType::Handle {
            resource_id: *resource_id,
            mode: *mode,
        },
    }
}

/// A deep copy of a variant case, with the same view.
pub fn clone_case(c: &NameOptionTypePair) -> (r: NameOptionTypePair)
    ensures
        r@ == c@,
    decreases *c,
{
    let typ = match &c.typ {
        Some(t) => Some(clone_type(t)),
        None => None,
    };
    let r = NameOptionTypePair { name: c.name.clone(), typ };
    proof {
        assert(r@ =~= c@);
    }
    r
}

/// A deep copy of a case list, with the same views.
pub fn clone_cases(v: &Vec<NameOptionTypePair>) -> (r: Vec<NameOptionTypePair>)
    ensures
        cases_view(r@) == cases_view(v@),
    decreases v@,
{
    proof {
        lemma_cases_view(v@);
    }
    let mut out: Vec<NameOptionTypePair> = Vec::new();
    let mut i: usize = 0;
    while i < v.len()
        invariant
            i <= v@.len(),
            out@.len() == i,
            forall|j: int| 0 <= j < i ==> #[trigger] case_view(out@[j]) == case_view(v@[j]),
        decreases v@.len() - i,
    {
        out.push(clone_case(&v[i]));
        i += 1;
    }
    proof {
        lemma_cases_view(out@);
        assert(cases_view(out@) =~= cases_view(v@));
    }
    out
}

/// A deep copy of a variant type, with the same view.
pub fn clone_variant(tv: &TypeVariant) -> (r: TypeVariant)
    ensures
        r@ == tv@,
    decreases *tv,
{
    TypeVariant { cases: clone_cases(&tv.cases) }
}

/// A deep copy of a record field, with the same view.
pub fn clone_field(f: &NameTypePair) -> (r: NameTypePair)
    ensures
        r@ == f@,
    decreases *f,
{
    let r = NameTypePair { name: f.name.clone(), typ: clone_type(&f.typ) };
    proof {
        assert(r@ =~= f@);
    }
    r
}

/// A deep copy of a field list, with the same views.
pub fn clone_fields(v: &Vec<NameTypePair>) -> (r: Vec<NameTypePair>)
    ensures
        fields_view(r@) == fields_view(v@),
    decreases v@,
{
    proof {
        lemma_fields_view(v@);
    }
    let mut out: Vec<NameTypePair> = Vec::new();
    let mut i: usize = 0;
    while i < v.len()
        invariant
            i <= v@.len(),
            out@.len() == i,
            forall|j: int| 0 <= j < i ==> #[trigger] field_view(out@[j]) == field_view(v@[j]),
        decreases v@.len() - i,
    {
        out.push(clone_field(&v[i]));
        i += 1;
    }
    proof {
        lemma_fields_view(out@);
        assert(fields_view(out@) =~= fields_view(v@));
    }
    out
}

/// A deep copy of a type list, with the same views.
pub fn clone_types(v: &Vec<AnalysedType>) -> (r: Vec<AnalysedType>)
    ensures
        types_view(r@) == types_view(v@),
    decreases v@,
{
    proof {
        lemma_types_view(v@);
    }
    let mut out: Vec<AnalysedType> = Vec::new();
    let mut i: usize = 0;
    while i < v.len()
        invariant
            i <= v@.len(),
            out@.len() == i,
            forall|j: int| 0 <= j < i ==> #[trigger] type_view(out@[j]) == type_view(v@[j]),
        decreases v@.len() - i,
    {
        out.push(clone_type(&v[i]));
        i += 1;
    }
    proof {
        lemma_types_view(out@);
        assert(types_view(out@) =~= types_view(v@));
    }
    out
}

impl Clone for AnalysedType {
    /// A deep copy with the same view.
    fn clone(&self) -> (r: Self)
        ensures
            r@ == self@,
    {
        clone_type(self)
    }
}

impl Clone for NameOptionTypePair {
    /// A deep copy with the same view.
    fn clone(&self) -> (r: Self)
        ensures
            r@ == self@,
    {
        clone_case(self)
    }
}

impl Clone for NameTypePair {
    /// A deep copy with the same view.
    fn clone(&self) -> (r: Self)
        ensures
            r@ == self@,
    {
        clone_field(self)
    }
}

impl Clone for TypeVariant {
    /// A deep copy with the same view.
    fn clone(&self) -> (r: Self)
        ensures
            r@ == self@,
    {
        clone_variant(self)
    }
}

impl View for AnalysedType {
    type V = TypeView;

    open spec fn view(&self) -> TypeView {
        type_view(*self)
    }
}

impl View for NameOptionTypePair {
    type V = CaseView;

    open spec fn view(&self) -> CaseView {
        case_view(*self)
    }
}

impl View for NameTypePair {
    type V = FieldView;

    open spec fn view(&self) -> FieldView {
        field_view(*self)
    }
}

impl View for TypeVariant {
    type V = Seq<CaseView>;

    open spec fn view(&self) -> Seq<CaseView> {
        cases_view(self.cases@)
    }
}

} // verus!
