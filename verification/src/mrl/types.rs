//! The MRL type system: content kinds, types, subtyping and type schemes.

use vstd::prelude::*;
use crate::util::text::{push_str, str_eq, u64_to_text, decimal};

verus! {

/// Content kind for staged types.
#[derive(Debug, Clone, Copy, PartialEq, Eq, Hash, Structural)]
pub enum ContentKind {
    Block,
    Inline,
    Content,
}

/// `k1` is a subkind of `k2`: Block and Inline are subkinds of Content,
/// and every kind is a subkind of itself.
pub open spec fn subkind(k1: ContentKind, k2: ContentKind) -> bool {
    match (k1, k2) {
        (ContentKind::Block, ContentKind::Content) => true,
        (ContentKind::Inline, ContentKind::Content) => true,
        (a, b) => a == b,
    }
}

/// The name of a content kind.
pub open spec fn kind_text(k: ContentKind) -> Seq<char> {
    match k {
        ContentKind::Block => "Block"@,
        ContentKind::Inline => "Inline"@,
        ContentKind::Content => "Content"@,
    }
}

impl ContentKind {
    /// Check if this kind is a subkind of another.
    pub fn is_subkind_of(&self, other: &ContentKind) -> (r: bool)
        ensures
            r == subkind(*self, *other),
    {
        match (self, other) {
            (ContentKind::Block, ContentKind::Content) => true,
            (ContentKind::Inline, ContentKind::Content) => true,
            (a, b) => *a == *b,
        }
    }

    /// The kind's name, as it is displayed.
    pub fn to_string(&self) -> (r: String)
        ensures
            r@ == kind_text(*self),
    {
        let mut s = String::new();
        match self {
            ContentKind::Block => push_str(&mut s, "Block"),
            ContentKind::Inline => push_str(&mut s, "Inline"),
            ContentKind::Content => push_str(&mut s, "Content"),
        }
        s
    }
}

/// MRL type system.
#[derive(Debug, PartialEq)]
pub enum MrlType {
    // Primitives
    NoneType,
    Bool,
    Int,
    Float,
    String,
    Symbol,
    // Content types
    Content,
    Block,
    Inline,
    // Composite types
    Array(Box<MrlType>),
    Mapping(Box<MrlType>, Box<MrlType>),
    Tuple(Vec<MrlType>),
    Record(Vec<(String, MrlType)>),
    // Function types
    Function { params: Vec<MrlType>, ret: Box<MrlType> },
    // Staged types
    Code(ContentKind),
    Shrubbery,
    // Selector types (for show/set)
    Selector(ContentKind),
    // Reactive types (render-time)
    Signal(Box<MrlType>),
    Effect,
    // Dynamic typing escape hatch
    Dyn,
    // Type variable for inference
    Var(u64),
}

/// The mathematical value of an MRL type: vectors become sequences and
/// field names become their characters.
pub enum TypeModel {
    NoneType,
    Bool,
    Int,
    Float,
    Str,
    Symbol,
    Content,
    Block,
    Inline,
    Array(Box<TypeModel>),
    Mapping(Box<TypeModel>, Box<TypeModel>),
    Tuple(Seq<TypeModel>),
    Record(Seq<(Seq<char>, TypeModel)>),
    Function { params: Seq<TypeModel>, ret: Box<TypeModel> },
    Code(ContentKind),
    Shrubbery,
    Selector(ContentKind),
    Signal(Box<TypeModel>),
    Effect,
    Dyn,
    Var(u64),
}

impl View for MrlType {
    type V = TypeModel;

    open spec fn view(&self) -> TypeModel {
        self.model()
    }
}

impl MrlType {
    /// The mathematical value of this type.
    pub open spec fn model(&self) -> TypeModel
        decreases self,
    {
        match self {
            MrlType::NoneType => TypeModel::NoneType,
            MrlType::Bool => TypeModel::Bool,
            MrlType::Int => TypeModel::Int,
            MrlType::Float => TypeModel::Float,
            MrlType::String => TypeModel::Str,
            MrlType::Symbol => TypeModel::Symbol,
            MrlType::Content => TypeModel::Content,
            MrlType::Block => TypeModel::Block,
            MrlType::Inline => TypeModel::Inline,
            MrlType::Array(t) => TypeModel::Array(Box::new(t.model())),
            MrlType::Mapping(k, v) => TypeModel::Mapping(Box::new(k.model()), Box::new(v.model())),
            MrlType::Tuple(ts) => TypeModel::Tuple(models(ts)),
            MrlType::Record(fs) => TypeModel::Record(field_models(fs)),
            MrlType::Function { params, ret } => TypeModel::Function {
                params: models(params),
                ret: Box::new(ret.model()),
            },
            MrlType::Code(k) => TypeModel::Code(*k),
            MrlType::Shrubbery => TypeModel::Shrubbery,
            MrlType::Selector(k) => TypeModel::Selector(*k),
            MrlType::Signal(t) => TypeModel::Signal(Box::new(t.model())),
            MrlType::Effect => TypeModel::Effect,
            MrlType::Dyn => TypeModel::Dyn,
            MrlType::Var(n) => TypeModel::Var(*n),
        }
    }
}

/// Subtyping: `a <: b`.
/// Reflexive; Block and Inline are below Content; arrays and signals are
/// covariant; functions are contravariant in their parameters (of equal
/// number) and covariant in their result; code types follow subkinding;
/// selectors are invariant; Dyn is the top type.
pub open spec fn subtype(a: TypeModel, b: TypeModel) -> bool
    decreases a,
{
    if a == b {
        true
    } else {
        match (a, b) {
            (TypeModel::Block, TypeModel::Content) => true,
            (TypeModel::Inline, TypeModel::Content) => true,
            (TypeModel::Array(t1), TypeModel::Array(t2)) => subtype(*t1, *t2),
            (TypeModel::Function { params: p1, ret: r1 }, TypeModel::Function { params: p2, ret: r2 }) => {
                &&& p1.len() == p2.len()
                &&& forall|i: int| 0 <= i < p1.len() ==> supertype(#[trigger] p1[i], p2[i])
                &&& subtype(*r1, *r2)
            },
            (TypeModel::Code(k1), TypeModel::Code(k2)) => subkind(k1, k2),
            (TypeModel::Selector(k1), TypeModel::Selector(k2)) => k1 == k2,
            (TypeModel::Signal(t1), TypeModel::Signal(t2)) => subtype(*t1, *t2),
            (_, TypeModel::Dyn) => true,
            _ => false,
        }
    }
}

/// The converse relation, `b <: a`, written by cases on `a`
/// (the same rules as `subtype`, read from the right).
pub open spec fn supertype(a: TypeModel, b: TypeModel) -> bool
    decreases a,
{
    if b == a {
        true
    } else {
        match (b, a) {
            (TypeModel::Block, TypeModel::Content) => true,
            (TypeModel::Inline, TypeModel::Content) => true,
            (TypeModel::Array(t1), TypeModel::Array(t2)) => supertype(*t2, *t1),
            (TypeModel::Function { params: p1, ret: r1 }, TypeModel::Function { params: p2, ret: r2 }) => {
                &&& p1.len() == p2.len()
                &&& forall|i: int| 0 <= i < p2.len() ==> subtype(#[trigger] p2[i], p1[i])
                &&& supertype(*r2, *r1)
            },
            (TypeModel::Code(k1), TypeModel::Code(k2)) => subkind(k1, k2),
            (TypeModel::Selector(k1), TypeModel::Selector(k2)) => k1 == k2,
            (TypeModel::Signal(t1), TypeModel::Signal(t2)) => supertype(*t2, *t1),
            (_, TypeModel::Dyn) => true,
            _ => false,
        }
    }
}

/// The models of a vector of types.
pub open spec fn models(ts: &Vec<MrlType>) -> Seq<TypeModel>
    decreases ts,
{
    Seq::new(ts@.len(), |i: int| if 0 <= i < ts@.len() { ts@[i].model() } else { TypeModel::NoneType })
}

/// The models of a vector of named fields.
pub open spec fn field_models(fs: &Vec<(String, MrlType)>) -> Seq<(Seq<char>, TypeModel)>
    decreases fs,
{
    Seq::new(fs@.len(), |i: int| if 0 <= i < fs@.len() { (fs@[i].0@, fs@[i].1.model()) } else { (Seq::empty(), TypeModel::NoneType) })
}

fn types_eq(a: &Vec<MrlType>, b: &Vec<MrlType>) -> (r: bool)
    ensures
        r == (models(a) == models(b)),
    decreases a,
{
    if a.len() != b.len() {
        assert(models(a).len() != models(b).len());
        return false;
    }
    let mut i: usize = 0;
    while i < a.len()
        invariant
            a@.len() == b@.len(),
            0 <= i <= a@.len(),
            forall|j: int| 0 <= j < i ==> a@[j].model() == b@[j].model(),
        decreases a@.len() - i,
    {
        if !a[i].ty_eq(&b[i]) {
            assert(models(a)[i as int] != models(b)[i as int]);
            return false;
        }
        i = i + 1;
    }
    assert(models(a) =~= models(b));
    true
}

fn fields_eq(a: &Vec<(String, MrlType)>, b: &Vec<(String, MrlType)>) -> (r: bool)
    ensures
        r == (field_models(a) == field_models(b)),
    decreases a,
{
    if a.len() != b.len() {
        assert(field_models(a).len() != field_models(b).len());
        return false;
    }
    let mut i: usize = 0;
    while i < a.len()
        invariant
            a@.len() == b@.len(),
            0 <= i <= a@.len(),
            forall|j: int| 0 <= j < i ==> a@[j].0@ == b@[j].0@ && a@[j].1.model() == b@[j].1.model(),
        decreases a@.len() - i,
    {
        if !str_eq(a[i].0.as_str(), b[i].0.as_str()) {
            assert(field_models(a)[i as int] != field_models(b)[i as int]);
            return false;
        }
        if !a[i].1.ty_eq(&b[i].1) {
            assert(field_models(a)[i as int] != field_models(b)[i as int]);
            return false;
        }
        i = i + 1;
    }
    assert(field_models(a) =~= field_models(b));
    true
}

fn copy_types(a: &Vec<MrlType>) -> (r: Vec<MrlType>)
    ensures
        models(&r) == models(a),
    decreases a,
{
    let mut out: Vec<MrlType> = Vec::new();
    let mut i: usize = 0;
    while i < a.len()
        invariant
            0 <= i <= a@.len(),
            out@.len() == i,
            forall|j: int| 0 <= j < i ==> out@[j].model() == a@[j].model(),
        decreases a@.len() - i,
    {
        out.push(a[i].duplicate());
        i = i + 1;
    }
    assert(models(&out) =~= models(a));
    out
}

fn copy_fields(a: &Vec<(String, MrlType)>) -> (r: Vec<(String, MrlType)>)
    ensures
        field_models(&r) == field_models(a),
    decreases a,
{
    let mut out: Vec<(String, MrlType)> = Vec::new();
    let mut i: usize = 0;
    while i < a.len()
        invariant
            0 <= i <= a@.len(),
            out@.len() == i,
            forall|j: int| 0 <= j < i ==> out@[j].0@ == a@[j].0@ && out@[j].1.model() == a@[j].1.model(),
        decreases a@.len() - i,
    {
        out.push((a[i].0.clone(), a[i].1.duplicate()));
        i = i + 1;
    }
    assert(field_models(&out) =~= field_models(a));
    out
}

impl MrlType {
    /// Structural equality: the two types have the same model.
    pub fn ty_eq(&self, other: &MrlType) -> (r: bool)
        ensures
            r == (self@ == other@),
        decreases self,
    {
        match (self, other) {
            (MrlType::NoneType, MrlType::NoneType) => true,
            (MrlType::Bool, MrlType::Bool) => true,
            (MrlType::Int, MrlType::Int) => true,
            (MrlType::Float, MrlType::Float) => true,
            (MrlType::String, MrlType::String) => true,
            (MrlType::Symbol, MrlType::Symbol) => true,
            (MrlType::Content, MrlType::Content) => true,
            (MrlType::Block, MrlType::Block) => true,
            (MrlType::Inline, MrlType::Inline) => true,
            (MrlType::Array(a), MrlType::Array(b)) => a.ty_eq(b),
            (MrlType::Mapping(k1, v1), MrlType::Mapping(k2, v2)) => k1.ty_eq(k2) && v1.ty_eq(v2),
            (MrlType::Tuple(a), MrlType::Tuple(b)) => types_eq(a, b),
            (MrlType::Record(a), MrlType::Record(b)) => fields_eq(a, b),
            (MrlType::Function { params: p1, ret: r1 }, MrlType::Function { params: p2, ret: r2 }) => {
                types_eq(p1, p2) && r1.ty_eq(r2)
            },
            (MrlType::Code(k1), MrlType::Code(k2)) => *k1 == *k2,
            (MrlType::Shrubbery, MrlType::Shrubbery) => true,
            (MrlType::Selector(k1), MrlType::Selector(k2)) => *k1 == *k2,
            (MrlType::Signal(a), MrlType::Signal(b)) => a.ty_eq(b),
            (MrlType::Effect, MrlType::Effect) => true,
            (MrlType::Dyn, MrlType::Dyn) => true,
            (MrlType::Var(a), MrlType::Var(b)) => *a == *b,
            _ => false,
        }
    }

    /// A copy of this type with the same model.
    pub fn duplicate(&self) -> (r: MrlType)
        ensures
            r@ == self@,
        decreases self,
    {
        let r = match self {
            MrlType::NoneType => MrlType::NoneType,
            MrlType::Bool => MrlType::Bool,
            MrlType::Int => MrlType::Int,
            MrlType::Float => MrlType::Float,
            MrlType::String => MrlType::String,
            MrlType::Symbol => MrlType::Symbol,
            MrlType::Content => MrlType::Content,
            MrlType::Block => MrlType::Block,
            MrlType::Inline => MrlType::Inline,
            MrlType::Array(a) => MrlType::Array(Box::new(a.duplicate())),
            MrlType::Mapping(k, v) => MrlType::Mapping(Box::new(k.duplicate()), Box::new(v.duplicate())),
            MrlType::Tuple(ts) => MrlType::Tuple(copy_types(ts)),
            MrlType::Record(fs) => MrlType::Record(copy_fields(fs)),
            MrlType::Function { params, ret } => MrlType::Function {
                params: copy_types(params),
                ret: Box::new(ret.duplicate()),
            },
            MrlType::Code(k) => MrlType::Code(*k),
            MrlType::Shrubbery => MrlType::Shrubbery,
            MrlType::Selector(k) => MrlType::Selector(*k),
            MrlType::Signal(t) => MrlType::Signal(Box::new(t.duplicate())),
            MrlType::Effect => MrlType::Effect,
            MrlType::Dyn => MrlType::Dyn,
            MrlType::Var(n) => MrlType::Var(*n),
        };
        r
    }
}

/// How a type is displayed, e.g. `(String, Int) -> Code<Block>`.
pub open spec fn type_text(t: TypeModel) -> Seq<char>
    decreases t,
{
    match t {
        TypeModel::NoneType => "None"@,
        TypeModel::Bool => "Bool"@,
        TypeModel::Int => "Int"@,
        TypeModel::Float => "Float"@,
        TypeModel::Str => "String"@,
        TypeModel::Symbol => "Symbol"@,
        TypeModel::Content => "Content"@,
        TypeModel::Block => "Block"@,
        TypeModel::Inline => "Inline"@,
        TypeModel::Array(e) => "Array<"@ + type_text(*e) + ">"@,
        TypeModel::Mapping(k, v) => "Map<"@ + type_text(*k) + ", "@ + type_text(*v) + ">"@,
        TypeModel::Tuple(ts) => "("@ + list_text(ts) + ")"@,
        TypeModel::Record(fs) => "{ "@ + fields_text(fs) + " }"@,
        TypeModel::Function { params, ret } => "("@ + list_text(params) + ") -> "@ + type_text(*ret),
        TypeModel::Code(k) => "Code<"@ + kind_text(k) + ">"@,
        TypeModel::Shrubbery => "Shrubbery"@,
        TypeModel::Selector(k) => "Selector<"@ + kind_text(k) + ">"@,
        TypeModel::Signal(e) => "Signal<"@ + type_text(*e) + ">"@,
        TypeModel::Effect => "Effect"@,
        TypeModel::Dyn => "Dyn"@,
        TypeModel::Var(n) => "?"@ + decimal(n as nat),
    }
}

/// Types displayed one after another, separated by `", "`.
pub open spec fn list_text(ts: Seq<TypeModel>) -> Seq<char>
    decreases ts,
{
    if ts.len() == 0 {
        Seq::empty()
    } else if ts.len() == 1 {
        type_text(ts[0])
    } else {
        list_text(ts.drop_last()) + ", "@ + type_text(ts.last())
    }
}

/// Fields displayed as `name: Type`, separated by `", "`.
pub open spec fn fields_text(fs: Seq<(Seq<char>, TypeModel)>) -> Seq<char>
    decreases fs,
{
    if fs.len() == 0 {
        Seq::empty()
    } else if fs.len() == 1 {
        fs[0].0 + ": "@ + type_text(fs[0].1)
    } else {
        fields_text(fs.drop_last()) + ", "@ + fs.last().0 + ": "@ + type_text(fs.last().1)
    }
}

fn push_types(out: &mut String, ts: &Vec<MrlType>)
    ensures
        final(out)@ == old(out)@ + list_text(models(ts)),
    decreases ts,
{
    let ghost start = out@;
    let mut i: usize = 0;
    while i < ts.len()
        invariant
            0 <= i <= ts@.len(),
            out@ == start + list_text(models(ts).take(i as int)),
        decreases ts@.len() - i,
    {
        let ghost before = models(ts).take(i as int);
        if i > 0 {
            push_str(out, ", ");
        }
        let t = ts[i].to_string();
        push_str(out, t.as_str());
        proof {
            let now = models(ts).take(i + 1);
            assert(now.drop_last() =~= before);
            assert(now.last() == ts@[i as int]@);
            if i == 0 {
                assert(before =~= Seq::<TypeModel>::empty());
                assert(list_text(before) =~= Seq::<char>::empty());
            }
        }
        i = i + 1;
    }
    assert(models(ts).take(ts@.len() as int) =~= models(ts));
}

fn push_fields(out: &mut String, fs: &Vec<(String, MrlType)>)
    ensures
        final(out)@ == old(out)@ + fields_text(field_models(fs)),
    decreases fs,
{
    let ghost start = out@;
    let mut i: usize = 0;
    while i < fs.len()
        invariant
            0 <= i <= fs@.len(),
            out@ == start + fields_text(field_models(fs).take(i as int)),
        decreases fs@.len() - i,
    {
        let ghost before = field_models(fs).take(i as int);
        if i > 0 {
            push_str(out, ", ");
        }
        push_str(out, fs[i].0.as_str());
        push_str(out, ": ");
        let t = fs[i].1.to_string();
        push_str(out, t.as_str());
        proof {
            let now = field_models(fs).take(i + 1);
            assert(now.drop_last() =~= before);
            assert(now.last() == (fs@[i as int].0@, fs@[i as int].1@));
            if i == 0 {
                assert(before =~= Seq::<(Seq<char>, TypeModel)>::empty());
                assert(fields_text(before) =~= Seq::<char>::empty());
            }
        }
        i = i + 1;
    }
    assert(field_models(fs).take(fs@.len() as int) =~= field_models(fs));
}

/// Whether the lists have the same length and each `b[i] <: a[i]`.
fn all_supertypes(a: &Vec<MrlType>, b: &Vec<MrlType>) -> (r: bool)
    ensures
        r == (models(a).len() == models(b).len() && forall|i: int| 0 <= i < models(a).len() ==> supertype(#[trigger] models(a)[i], models(b)[i])),
    decreases a,
{
    if a.len() != b.len() {
        return false;
    }
    let mut i: usize = 0;
    while i < a.len()
        invariant
            a@.len() == b@.len(),
            0 <= i <= a@.len(),
            forall|j: int| 0 <= j < i ==> supertype(#[trigger] models(a)[j], models(b)[j]),
        decreases a@.len() - i,
    {
        if !a[i].is_supertype_of(&b[i]) {
            assert(!supertype(models(a)[i as int], models(b)[i as int]));
            return false;
        }
        i = i + 1;
    }
    true
}

/// Whether the lists have the same length and each `a[i] <: b[i]`.
fn all_subtypes(a: &Vec<MrlType>, b: &Vec<MrlType>) -> (r: bool)
    ensures
        r == (models(a).len() == models(b).len() && forall|i: int| 0 <= i < models(a).len() ==> subtype(#[trigger] models(a)[i], models(b)[i])),
    decreases a,
{
    if a.len() != b.len() {
        return false;
    }
    let mut i: usize = 0;
    while i < a.len()
        invariant
            a@.len() == b@.len(),
            0 <= i <= a@.len(),
            forall|j: int| 0 <= j < i ==> subtype(#[trigger] models(a)[j], models(b)[j]),
        decreases a@.len() - i,
    {
        if !a[i].is_subtype_of(&b[i]) {
            assert(!subtype(models(a)[i as int], models(b)[i as int]));
            return false;
        }
        i = i + 1;
    }
    true
}

impl MrlType {
    /// Check if this type is a subtype of another.
    pub fn is_subtype_of(&self, other: &MrlType) -> (r: bool)
        ensures
            r == subtype(self@, other@),
        decreases self,
    {
        if self.ty_eq(other) {
            return true;
        }
        match (self, other) {
            (MrlType::Block, MrlType::Content) => true,
            (MrlType::Inline, MrlType::Content) => true,
            (MrlType::Array(t1), MrlType::Array(t2)) => t1.is_subtype_of(t2),
            (MrlType::Function { params: p1, ret: r1 }, MrlType::Function { params: p2, ret: r2 }) => {
                assert(self@ == TypeModel::Function { params: models(p1), ret: Box::new(r1@) });
                assert(other@ == TypeModel::Function { params: models(p2), ret: Box::new(r2@) });
                all_supertypes(p1, p2) && r1.is_subtype_of(r2)
            },
            (MrlType::Code(k1), MrlType::Code(k2)) => k1.is_subkind_of(k2),
            (MrlType::Selector(k1), MrlType::Selector(k2)) => *k1 == *k2,
            (MrlType::Signal(t1), MrlType::Signal(t2)) => t1.is_subtype_of(t2),
            (_, MrlType::Dyn) => true,
            _ => false,
        }
    }

    /// Whether `sub` is a subtype of this type.
    fn is_supertype_of(&self, sub: &MrlType) -> (r: bool)
        ensures
            r == supertype(self@, sub@),
        decreases self,
    {
        if sub.ty_eq(self) {
            return true;
        }
        match (sub, self) {
            (MrlType::Block, MrlType::Content) => true,
            (MrlType::Inline, MrlType::Content) => true,
            (MrlType::Array(t1), MrlType::Array(t2)) => t2.is_supertype_of(t1),
            (MrlType::Function { params: p1, ret: r1 }, MrlType::Function { params: p2, ret: r2 }) => {
                assert(sub@ == TypeModel::Function { params: models(p1), ret: Box::new(r1@) });
                assert(self@ == TypeModel::Function { params: models(p2), ret: Box::new(r2@) });
                all_subtypes(p2, p1) && r2.is_supertype_of(r1)
            },
            (MrlType::Code(k1), MrlType::Code(k2)) => k1.is_subkind_of(k2),
            (MrlType::Selector(k1), MrlType::Selector(k2)) => *k1 == *k2,
            (MrlType::Signal(t1), MrlType::Signal(t2)) => t2.is_supertype_of(t1),
            (_, MrlType::Dyn) => true,
            _ => false,
        }
    }

    /// Get the content kind if this is a content type.
    pub fn as_content_kind(&self) -> (r: Option<ContentKind>)
        ensures
            r == match self@ {
                TypeModel::Block => Some(ContentKind::Block),
                TypeModel::Inline => Some(ContentKind::Inline),
                TypeModel::Content => Some(ContentKind::Content),
                _ => None::<ContentKind>,
            },
    {
        match self {
            MrlType::Block => Some(ContentKind::Block),
            MrlType::Inline => Some(ContentKind::Inline),
            MrlType::Content => Some(ContentKind::Content),
            _ => None,
        }
    }

    /// Check if this is a content type (Block, Inline or Content).
    pub fn is_content(&self) -> (r: bool)
        ensures
            r == (self@ is Block || self@ is Inline || self@ is Content),
    {
        match self {
            MrlType::Block | MrlType::Inline | MrlType::Content => true,
            _ => false,
        }
    }

    /// Check if this type can contain another type (for nesting validation):
    /// Inline cannot contain Block or Content; everything else may nest.
    pub fn can_contain(&self, other: &MrlType) -> (r: bool)
        ensures
            r == !(self@ is Inline && (other@ is Block || other@ is Content)),
    {
        match (self, other) {
            (MrlType::Inline, MrlType::Block) => false,
            (MrlType::Inline, MrlType::Content) => false,
            _ => true,
        }
    }

    /// The type as it is displayed, e.g. `(String, Int) -> Code<Block>`.
    pub fn to_string(&self) -> (r: String)
        ensures
            r@ == type_text(self@),
        decreases self,
    {
        let mut s = String::new();
        match self {
            MrlType::NoneType => push_str(&mut s, "None"),
            MrlType::Bool => push_str(&mut s, "Bool"),
            MrlType::Int => push_str(&mut s, "Int"),
            MrlType::Float => push_str(&mut s, "Float"),
            MrlType::String => push_str(&mut s, "String"),
            MrlType::Symbol => push_str(&mut s, "Symbol"),
            MrlType::Content => push_str(&mut s, "Content"),
            MrlType::Block => push_str(&mut s, "Block"),
            MrlType::Inline => push_str(&mut s, "Inline"),
            MrlType::Array(t) => {
                push_str(&mut s, "Array<");
                let e = t.to_string();
                push_str(&mut s, e.as_str());
                push_str(&mut s, ">");
            },
            MrlType::Mapping(k, v) => {
                push_str(&mut s, "Map<");
                let a = k.to_string();
                push_str(&mut s, a.as_str());
                push_str(&mut s, ", ");
                let b = v.to_string();
                push_str(&mut s, b.as_str());
                push_str(&mut s, ">");
            },
            MrlType::Tuple(ts) => {
                push_str(&mut s, "(");
                push_types(&mut s, ts);
                push_str(&mut s, ")");
            },
            MrlType::Record(fs) => {
                push_str(&mut s, "{ ");
                push_fields(&mut s, fs);
                push_str(&mut s, " }");
            },
            MrlType::Function { params, ret } => {
                push_str(&mut s, "(");
                push_types(&mut s, params);
                push_str(&mut s, ") -> ");
                let r = ret.to_string();
                push_str(&mut s, r.as_str());
            },
            MrlType::Code(k) => {
                push_str(&mut s, "Code<");
                let n = k.to_string();
                push_str(&mut s, n.as_str());
                push_str(&mut s, ">");
            },
            MrlType::Shrubbery => push_str(&mut s, "Shrubbery"),
            MrlType::Selector(k) => {
                push_str(&mut s, "Selector<");
                let n = k.to_string();
                push_str(&mut s, n.as_str());
                push_str(&mut s, ">");
            },
            MrlType::Signal(t) => {
                push_str(&mut s, "Signal<");
                let e = t.to_string();
                push_str(&mut s, e.as_str());
                push_str(&mut s, ">");
            },
            MrlType::Effect => push_str(&mut s, "Effect"),
            MrlType::Dyn => push_str(&mut s, "Dyn"),
            MrlType::Var(n) => {
                push_str(&mut s, "?");
                let d = u64_to_text(*n);
                push_str(&mut s, d.as_str());
            },
        }
        assert(s@ =~= type_text(self@));
        s
    }
}

/// Type scheme for polymorphism.
pub struct TypeScheme {
    pub vars: Vec<u64>,
    pub ty: MrlType,
}

impl TypeScheme {
    /// A scheme with no quantified variables.
    pub fn mono(ty: MrlType) -> (r: Self)
        ensures
            r.vars@.len() == 0,
            r.ty == ty,
    {
        TypeScheme { vars: Vec::new(), ty }
    }

    /// A scheme quantifying over `vars`.
    pub fn poly(vars: Vec<u64>, ty: MrlType) -> (r: Self)
        ensures
            r.vars == vars,
            r.ty == ty,
    {
        TypeScheme { vars, ty }
    }
}

/// Every type is a subtype of itself and of `Dyn`, and `Dyn` is a subtype
/// of itself alone.
pub proof fn lemma_subtype_reflexive_dyn_top(a: TypeModel)
    ensures
        subtype(a, a),
        subtype(a, TypeModel::Dyn),
        subtype(TypeModel::Dyn, a) ==> a == TypeModel::Dyn,
{
}

/// Subtyping is antisymmetric: two types below each other are equal.
pub proof fn lemma_subtype_antisymmetric(a: TypeModel, b: TypeModel)
    requires
        subtype(a, b),
        subtype(b, a),
    ensures
        a == b,
    decreases a,
{
    if a != b {
        match (a, b) {
            (TypeModel::Array(x), TypeModel::Array(y)) => {
                lemma_subtype_antisymmetric(*x, *y);
            },
            (TypeModel::Signal(x), TypeModel::Signal(y)) => {
                lemma_subtype_antisymmetric(*x, *y);
            },
            (TypeModel::Function { params: p1, ret: r1 }, TypeModel::Function { params: p2, ret: r2 }) => {
                assert forall|i: int| 0 <= i < p1.len() implies p1[i] == p2[i] by {
                    assert(supertype(p1[i], p2[i]));
                    assert(supertype(p2[i], p1[i]));
                    lemma_supertype_antisymmetric(p1[i], p2[i]);
                }
                lemma_subtype_antisymmetric(*r1, *r2);
                assert(p1 =~= p2);
            },
            _ => {},
        }
    }
}

/// The converse relation is antisymmetric too.
pub proof fn lemma_supertype_antisymmetric(a: TypeModel, b: TypeModel)
    requires
        supertype(a, b),
        supertype(b, a),
    ensures
        a == b,
    decreases a,
{
    if a != b {
        match (a, b) {
            (TypeModel::Array(x), TypeModel::Array(y)) => {
                lemma_supertype_antisymmetric(*x, *y);
            },
            (TypeModel::Signal(x), TypeModel::Signal(y)) => {
                lemma_supertype_antisymmetric(*x, *y);
            },
            (TypeModel::Function { params: p1, ret: r1 }, TypeModel::Function { params: p2, ret: r2 }) => {
                assert forall|i: int| 0 <= i < p1.len() implies p1[i] == p2[i] by {
                    assert(subtype(p1[i], p2[i]));
                    assert(subtype(p2[i], p1[i]));
                    lemma_subtype_antisymmetric(p1[i], p2[i]);
                }
                lemma_supertype_antisymmetric(*r1, *r2);
                assert(p1 =~= p2);
            },
            _ => {},
        }
    }
}

/// Subtyping is transitive.
pub proof fn lemma_subtype_transitive(a: TypeModel, b: TypeModel, c: TypeModel)
    requires
        subtype(a, b),
        subtype(b, c),
    ensures
        subtype(a, c),
    decreases a,
{
    if a != b && b != c && c != TypeModel::Dyn {
        match (a, b, c) {
            (TypeModel::Array(x), TypeModel::Array(y), TypeModel::Array(z)) => {
                lemma_subtype_transitive(*x, *y, *z);
            },
            (TypeModel::Signal(x), TypeModel::Signal(y), TypeModel::Signal(z)) => {
                lemma_subtype_transitive(*x, *y, *z);
            },
            (
                TypeModel::Function { params: p1, ret: r1 },
                TypeModel::Function { params: p2, ret: r2 },
                TypeModel::Function { params: p3, ret: r3 },
            ) => {
                assert forall|i: int| 0 <= i < p1.len() implies supertype(#[trigger] p1[i], p3[i]) by {
                    assert(supertype(p1[i], p2[i]));
                    assert(supertype(p2[i], p3[i]));
                    lemma_supertype_transitive(p1[i], p2[i], p3[i]);
                }
                lemma_subtype_transitive(*r1, *r2, *r3);
            },
            _ => {},
        }
    }
}

/// The converse relation is transitive too.
pub proof fn lemma_supertype_transitive(a: TypeModel, b: TypeModel, c: TypeModel)
    requires
        supertype(a, b),
        supertype(b, c),
    ensures
        supertype(a, c),
    decreases a,
{
    if a != b && b != c && a != TypeModel::Dyn {
        match (a, b, c) {
            (TypeModel::Array(x), TypeModel::Array(y), TypeModel::Array(z)) => {
                lemma_supertype_transitive(*x, *y, *z);
            },
            (TypeModel::Signal(x), TypeModel::Signal(y), TypeModel::Signal(z)) => {
                lemma_supertype_transitive(*x, *y, *z);
            },
            (
                TypeModel::Function { params: p1, ret: r1 },
                TypeModel::Function { params: p2, ret: r2 },
                TypeModel::Function { params: p3, ret: r3 },
            ) => {
                assert forall|i: int| 0 <= i < p1.len() implies subtype(#[trigger] p1[i], p3[i]) by {
                    assert(subtype(p1[i], p2[i]));
                    assert(subtype(p2[i], p3[i]));
                    lemma_subtype_transitive(p1[i], p2[i], p3[i]);
                }
                lemma_supertype_transitive(*r1, *r2, *r3);
            },
            _ => {},
        }
    }
}

} // verus!
