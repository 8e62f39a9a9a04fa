//! The library's own model of a parsed source module.
//!
//! Parsing and printing are external collaborators: the parser side hands
//! the library one `Module` of plain values, in which every declaration
//! carries both its structure (as far as the library reads it) and its
//! rendered source text (`text` fields, produced by the external printer).

use vstd::prelude::*;

verus! {

/// A type expression, as far as the library interprets it: named references
/// (possibly generic), object types, unions, arrays, tuples, and keyword
/// types (built-in primitives such as `number`, which refer to nothing).
#[derive(Debug)]
pub enum TypeExpr {
    Ref { name: String, args: Vec<TypeExpr> },
    Object(Vec<ObjectMember>),
    Union(Vec<TypeExpr>),
    Array(Box<TypeExpr>),
    Tuple(Vec<TypeExpr>),
    Keyword(String),
}

/// One member of an object type: a key with its type annotation.
#[derive(Debug)]
pub struct ObjectMember {
    pub key: String,
    pub ty: TypeExpr,
}

/// Every type identifier referenced anywhere inside a type expression, in
/// left-to-right order: union members, generic type arguments, object-member
/// annotations and array/tuple element types are all scanned recursively.
pub open spec fn refs_of(t: TypeExpr) -> Seq<Seq<char>>
    decreases t,
{
    match t {
        TypeExpr::Ref { name, args } => seq![name@] + refs_of_list(args@),
        TypeExpr::Object(ms) => refs_of_members(ms@),
        TypeExpr::Union(ts) => refs_of_list(ts@),
        TypeExpr::Array(e) => refs_of(*e),
        TypeExpr::Tuple(ts) => refs_of_list(ts@),
        TypeExpr::Keyword(_) => seq![],
    }
}

pub open spec fn refs_of_list(ts: Seq<TypeExpr>) -> Seq<Seq<char>>
    decreases ts,
{
    if ts.len() == 0 {
        seq![]
    } else {
        refs_of(ts[0]) + refs_of_list(ts.drop_first())
    }
}

pub open spec fn refs_of_members(ms: Seq<ObjectMember>) -> Seq<Seq<char>>
    decreases ms,
{
    if ms.len() == 0 {
        seq![]
    } else {
        refs_of(ms[0].ty) + refs_of_members(ms.drop_first())
    }
}

/// Reference collection distributes over list concatenation.
pub proof fn lemma_refs_of_list_append(a: Seq<TypeExpr>, b: Seq<TypeExpr>)
    ensures
        refs_of_list(a + b) == refs_of_list(a) + refs_of_list(b),
    decreases a.len(),
{
    if a.len() == 0 {
        assert(a + b =~= b);
        assert(refs_of_list(a) + refs_of_list(b) =~= refs_of_list(b));
    } else {
        assert((a + b).drop_first() =~= a.drop_first() + b);
        lemma_refs_of_list_append(a.drop_first(), b);
        assert((a + b)[0] == a[0]);
        assert(refs_of(a[0]) + (refs_of_list(a.drop_first()) + refs_of_list(b)) =~= (refs_of(a[0])
            + refs_of_list(a.drop_first())) + refs_of_list(b));
    }
}

pub proof fn lemma_refs_of_members_append(a: Seq<ObjectMember>, b: Seq<ObjectMember>)
    ensures
        refs_of_members(a + b) == refs_of_members(a) + refs_of_members(b),
    decreases a.len(),
{
    if a.len() == 0 {
        assert(a + b =~= b);
        assert(refs_of_members(a) + refs_of_members(b) =~= refs_of_members(b));
    } else {
        assert((a + b).drop_first() =~= a.drop_first() + b);
        lemma_refs_of_members_append(a.drop_first(), b);
        assert((a + b)[0] == a[0]);
        assert(refs_of(a[0].ty) + (refs_of_members(a.drop_first()) + refs_of_members(b)) =~= (
        refs_of(a[0].ty) + refs_of_members(a.drop_first())) + refs_of_members(b));
    }
}

/// The views of a vector of strings: each element as a character sequence.
pub open spec fn names_view(v: Seq<String>) -> Seq<Seq<char>> {
    v.map_values(|s: String| s@)
}

/// Collect every type identifier referenced inside `t`, in order.
pub fn collect_refs(t: &TypeExpr) -> (r: Vec<String>)
    ensures
        names_view(r@) == refs_of(*t),
    decreases *t,
{
    match t {
        TypeExpr::Ref { name, args } => {
            let mut out: Vec<String> = Vec::new();
            out.push(name.clone());
            proof {
                assert(names_view(out@) =~= seq![name@]);
            }
            let mut rest = collect_refs_list(args);
            let ghost out0 = out@;
            out.append(&mut rest);
            proof {
                assert(names_view(out@) =~= names_view(out0) + refs_of_list(args@));
            }
            out
        },
        TypeExpr::Object(ms) => collect_refs_members(ms),
        TypeExpr::Union(ts) => collect_refs_list(ts),
        TypeExpr::Array(e) => collect_refs(e),
        TypeExpr::Tuple(ts) => collect_refs_list(ts),
        TypeExpr::Keyword(_) => {
            let out: Vec<String> = Vec::new();
            proof {
                assert(names_view(out@) =~= Seq::<Seq<char>>::empty());
            }
            out
        },
    }
}

fn collect_refs_list(ts: &Vec<TypeExpr>) -> (r: Vec<String>)
    ensures
        names_view(r@) == refs_of_list(ts@),
    decreases ts@,
{
    let mut out: Vec<String> = Vec::new();
    let mut i: usize = 0;
    proof {
        assert(ts@.take(0) =~= Seq::<TypeExpr>::empty());
        assert(names_view(out@) =~= refs_of_list(ts@.take(0)));
    }
    while i < ts.len()
        invariant
            0 <= i <= ts@.len(),
            names_view(out@) == refs_of_list(ts@.take(i as int)),
        decreases ts@.len() - i,
    {
        proof {
            assert(decreases_to!(ts@ => ts@[i as int]));
        }
        let mut piece = collect_refs(&ts[i]);
        let ghost out0 = out@;
        out.append(&mut piece);
        proof {
            assert(ts@.take(i + 1) =~= ts@.take(i as int) + seq![ts@[i as int]]);
            lemma_refs_of_list_append(ts@.take(i as int), seq![ts@[i as int]]);
            assert(seq![ts@[i as int]].drop_first() =~= Seq::<TypeExpr>::empty());
            assert(refs_of_list(Seq::<TypeExpr>::empty()) =~= Seq::<Seq<char>>::empty());
            assert(refs_of_list(seq![ts@[i as int]]) =~= refs_of(ts@[i as int]));
            assert(names_view(out@) =~= names_view(out0) + refs_of(ts@[i as int]));
        }
        i = i + 1;
    }
    proof {
        assert(ts@.take(ts@.len() as int) =~= ts@);
    }
    out
}

fn collect_refs_members(ms: &Vec<ObjectMember>) -> (r: Vec<String>)
    ensures
        names_view(r@) == refs_of_members(ms@),
    decreases ms@,
{
    let mut out: Vec<String> = Vec::new();
    let mut i: usize = 0;
    proof {
        assert(ms@.take(0) =~= Seq::<ObjectMember>::empty());
        assert(names_view(out@) =~= refs_of_members(ms@.take(0)));
    }
    while i < ms.len()
        invariant
            0 <= i <= ms@.len(),
            names_view(out@) == refs_of_members(ms@.take(i as int)),
        decreases ms@.len() - i,
    {
        proof {
            assert(decreases_to!(ms@ => ms@[i as int]));
        }
        let mut piece = collect_refs(&ms[i].ty);
        let ghost out0 = out@;
        out.append(&mut piece);
        proof {
            assert(ms@.take(i + 1) =~= ms@.take(i as int) + seq![ms@[i as int]]);
            lemma_refs_of_members_append(ms@.take(i as int), seq![ms@[i as int]]);
            assert(seq![ms@[i as int]].drop_first() =~= Seq::<ObjectMember>::empty());
            assert(refs_of_members(Seq::<ObjectMember>::empty()) =~= Seq::<Seq<char>>::empty());
            assert(refs_of_members(seq![ms@[i as int]]) =~= refs_of(ms@[i as int].ty));
            assert(names_view(out@) =~= names_view(out0) + refs_of(ms@[i as int].ty));
        }
        i = i + 1;
    }
    proof {
        assert(ms@.take(ms@.len() as int) =~= ms@);
    }
    out
}

/// One decorator call argument, as far as the library reads it: a string
/// literal, or anything else.
#[derive(Debug)]
pub enum CallArg {
    StrLit(String),
    OtherArg,
}

/// One decorator: the name of the called identifier (absent when the
/// decorator expression is not a plain identifier call) and its arguments.
#[derive(Debug)]
pub struct Decorator {
    pub callee: Option<String>,
    pub args: Vec<CallArg>,
}

/// The binding shape of one parameter pattern.
#[derive(Clone, Copy, PartialEq, Eq, Structural, Debug)]
pub enum PatKind {
    IdentPat,
    ObjectPat,
    ArrayPat,
    AssignPat,
    RestPat,
    OtherPat,
}

/// One function or method parameter: its binding shape and its declared
/// type annotation, if any.
#[derive(Debug)]
pub struct Param {
    pub kind: PatKind,
    pub type_ann: Option<TypeExpr>,
}

/// One class method: its name (absent when the property name is not a plain
/// identifier), its decorators, parameters and return type, and its rendered
/// source text.
#[derive(Debug)]
pub struct MethodNode {
    pub name: Option<String>,
    pub decorators: Vec<Decorator>,
    pub params: Vec<Param>,
    pub return_type: Option<TypeExpr>,
    pub text: String,
}

/// One class property: its name and its rendered source text.
#[derive(Debug)]
pub struct PropNode {
    pub name: Option<String>,
    pub text: String,
}

/// One member of a class body.
#[derive(Debug)]
pub enum ClassMemberNode {
    MethodMember(MethodNode),
    PropMember(PropNode),
    OtherMember,
}

/// One class declaration: its name, decorators, the type arguments of the
/// extended base (empty when the class extends nothing generic), its body
/// and its rendered source text (without body or decorators).
#[derive(Debug)]
pub struct ClassNode {
    pub name: String,
    pub decorators: Vec<Decorator>,
    pub super_type_args: Vec<TypeExpr>,
    pub members: Vec<ClassMemberNode>,
    pub text: String,
}

/// One type-alias declaration: its identifier, its right-hand side and its
/// rendered source text.
#[derive(Debug)]
pub struct TypeAliasDecl {
    pub id: String,
    pub rhs: TypeExpr,
    pub text: String,
}

/// One function declaration: its name, parameters, return type and rendered
/// source text (without body or decorators).
#[derive(Debug)]
pub struct FnNode {
    pub name: String,
    pub params: Vec<Param>,
    pub return_type: Option<TypeExpr>,
    pub text: String,
}

/// One top-level item of a module, as far as the library reads it.
#[derive(Debug)]
pub enum ModuleItem {
    TypeAliasItem(TypeAliasDecl),
    ClassItem(ClassNode),
    FnItem(FnNode),
    OtherItem,
}

/// A parsed module: its items in source order.
#[derive(Debug)]
pub struct Module {
    pub items: Vec<ModuleItem>,
}

} // verus!
