//! The task compiler: the per-module type-alias catalog, the decorator
//! matcher, the task extractor, and the context compiler that renders a
//! task's type closure and method stubs into one textual context document.

use vstd::prelude::*;
use vstd::string::StringExecFns;
use crate::ast::{
    collect_refs, names_view, refs_of, CallArg, ClassMemberNode, ClassNode, Decorator, MethodNode,
    Module, ModuleItem, Param, PatKind, TypeAliasDecl, TypeExpr,
};
use crate::closure::{catalog_lookup, closure_set, contains_name, find_closure, lookup_decl};
use crate::filter::{record_alias, record_alias_spec};

verus! {

/// The per-module catalog of type-alias declarations, identifier to
/// declaration, last declaration of an identifier winning.
#[derive(Debug)]
pub struct TypeAliasMap {
    pub entries: Vec<TypeAliasDecl>,
}

/// The head identifier of a type reference; any other shape of type has
/// none.
pub open spec fn ref_head(t: TypeExpr) -> Option<Seq<char>> {
    match t {
        TypeExpr::Ref { name, args } => Some(name@),
        _ => None,
    }
}

impl Default for TypeAliasMap {
    /// An empty catalog.
    fn default() -> (r: Self)
        ensures
            r.entries@.len() == 0,
    {
        TypeAliasMap { entries: Vec::new() }
    }
}

impl TypeAliasMap {
    /// The identifier a type reference names, if the type is a reference.
    pub fn ts_type_to_id(ty: &TypeExpr) -> (r: Option<String>)
        ensures
            match r {
                Some(s) => ref_head(*ty) == Some(s@),
                None => ref_head(*ty) is None,
            },
    {
        match ty {
            TypeExpr::Ref { name, args: _ } => Some(name.clone()),
            _ => None,
        }
    }

    /// The declaration of `id`, if the catalog has one.
    pub fn get_decl<'a>(&'a self, id: &String) -> (r: Option<&'a TypeAliasDecl>)
        ensures
            match r {
                Some(d) => catalog_lookup(self.entries@, id@) == Some(*d),
                None => catalog_lookup(self.entries@, id@) is None,
            },
    {
        lookup_decl(&self.entries, id)
    }

    /// Record a declaration, overwriting any earlier declaration of the
    /// same identifier.
    pub fn insert_decl(&mut self, decl: TypeAliasDecl)
        ensures
            final(self).entries@ == record_alias_spec(old(self).entries@, decl),
    {
        record_alias(&mut self.entries, decl);
    }
}

/// What matching a decorator against a callee name yields: the string
/// literal standing as the decorator call's first argument, provided the
/// decorator is a plain call of that identifier.
pub open spec fn spec_match_decorator(callee: Seq<char>, d: Decorator) -> Option<Seq<char>> {
    match d.callee {
        Some(c) => if c@ == callee && d.args@.len() >= 1 {
            match d.args@[0] {
                CallArg::StrLit(s) => Some(s@),
                CallArg::OtherArg => None,
            }
        } else {
            None
        },
        None => None,
    }
}

/// The first decorator in the list that matches.
pub open spec fn spec_first_match(callee: Seq<char>, ds: Seq<Decorator>) -> Option<Seq<char>>
    decreases ds.len(),
{
    if ds.len() == 0 {
        None
    } else {
        match spec_match_decorator(callee, ds[0]) {
            Some(s) => Some(s),
            None => spec_first_match(callee, ds.drop_first()),
        }
    }
}

/// Matches decorators of the form `@name("...")`: a call of a fixed
/// identifier whose first argument is a string literal.
pub struct MatchCallStrLit {
    pub callee: String,
}

impl MatchCallStrLit {
    pub fn new(callee_ident: &str) -> (r: Self)
        ensures
            r.callee@ == callee_ident@,
    {
        MatchCallStrLit { callee: callee_ident.to_owned() }
    }

    /// The string-literal argument of this decorator, if it is a call of
    /// the expected identifier with a string literal first.
    pub fn match_decorator(&self, d: &Decorator) -> (r: Option<String>)
        ensures
            match r {
                Some(s) => spec_match_decorator(self.callee@, *d) == Some(s@),
                None => spec_match_decorator(self.callee@, *d) is None,
            },
    {
        match &d.callee {
            Some(c) => if c.eq(&self.callee) {
                if d.args.len() >= 1 {
                    match &d.args[0] {
                        CallArg::StrLit(s) => Some(s.clone()),
                        CallArg::OtherArg => None,
                    }
                } else {
                    None
                }
            } else {
                None
            },
            None => None,
        }
    }

    /// The first matching decorator's string literal, scanning in order.
    pub fn first_match_decorator(&self, decorators: &Vec<Decorator>) -> (r: Option<String>)
        ensures
            match r {
                Some(s) => spec_first_match(self.callee@, decorators@) == Some(s@),
                None => spec_first_match(self.callee@, decorators@) is None,
            },
    {
        let mut i: usize = 0;
        proof {
            assert(decorators@.skip(0) =~= decorators@);
        }
        while i < decorators.len()
            invariant
                0 <= i <= decorators@.len(),
                spec_first_match(self.callee@, decorators@) == spec_first_match(
                    self.callee@,
                    decorators@.skip(i as int),
                ),
                forall|j: int|
                    0 <= j < i ==> spec_match_decorator(self.callee@, #[trigger] decorators@[j])
                        is None,
            decreases decorators@.len() - i,
        {
            proof {
                assert(decorators@.skip(i as int)[0] == decorators@[i as int]);
                assert(decorators@.skip(i as int).drop_first() =~= decorators@.skip(i + 1));
            }
            match self.match_decorator(&decorators[i]) {
                Some(s) => {
                    return Some(s);
                },
                None => {},
            }
            i = i + 1;
        }
        proof {
            assert(decorators@.skip(decorators@.len() as int) =~= Seq::<Decorator>::empty());
        }
        None
    }
}

/// Why extracting a task failed: a capability method's parameter or return
/// annotation is missing or is not a simple reference to a named type.
/// Ambiguous call signatures cannot be safely summarized for a remote peer.
#[derive(Clone, Copy, PartialEq, Eq, Structural, Debug)]
pub enum ExtractError {
    MalformedSignature,
}

/// The type annotation a parameter pattern declares, if its binding shape
/// can carry one.
pub open spec fn pat_type_ann(p: Param) -> Option<TypeExpr> {
    if p.kind is OtherPat {
        None
    } else {
        p.type_ann
    }
}

/// A simple type reference: a named reference without type arguments.
pub open spec fn simple_ref(t: TypeExpr) -> Option<Seq<char>> {
    match t {
        TypeExpr::Ref { name, args } => if args.len() == 0 {
            Some(name@)
        } else {
            None
        },
        _ => None,
    }
}

/// The parameter type names of a capability, or nothing if any parameter
/// lacks an annotation or has one that is not a simple reference.
pub open spec fn param_names(ps: Seq<Param>) -> Option<Seq<Seq<char>>>
    decreases ps.len(),
{
    if ps.len() == 0 {
        Some(seq![])
    } else {
        match pat_type_ann(ps[0]) {
            None => None,
            Some(t) => match simple_ref(t) {
                None => None,
                Some(n) => match param_names(ps.drop_first()) {
                    None => None,
                    Some(rest) => Some(seq![n] + rest),
                },
            },
        }
    }
}

proof fn lemma_param_names_snoc(ps: Seq<Param>, p: Param)
    ensures
        param_names(ps.push(p)) == match param_names(ps) {
            None => None::<Seq<Seq<char>>>,
            Some(ns) => match pat_type_ann(p) {
                None => None::<Seq<Seq<char>>>,
                Some(t) => match simple_ref(t) {
                    None => None::<Seq<Seq<char>>>,
                    Some(n) => Some(ns.push(n)),
                },
            },
        },
    decreases ps.len(),
{
    if ps.len() == 0 {
        assert(ps.push(p)[0] == p);
        assert(ps.push(p).drop_first() =~= Seq::<Param>::empty());
        assert(param_names(Seq::<Param>::empty()) == Some(Seq::<Seq<char>>::empty()));
        match pat_type_ann(p) {
            None => {},
            Some(t) => match simple_ref(t) {
                None => {},
                Some(n) => {
                    assert(seq![n] + Seq::<Seq<char>>::empty() =~= seq![n]);
                    assert(param_names(ps) == Some(Seq::<Seq<char>>::empty()));
                    assert(Seq::<Seq<char>>::empty().push(n) =~= seq![n]);
                },
            },
        }
    } else {
        assert(ps.push(p)[0] == ps[0]);
        assert(ps.push(p).drop_first() =~= ps.drop_first().push(p));
        lemma_param_names_snoc(ps.drop_first(), p);
        match pat_type_ann(ps[0]) {
            None => {},
            Some(t0) => match simple_ref(t0) {
                None => {},
                Some(n0) => {
                    match param_names(ps.drop_first()) {
                        None => {},
                        Some(rest) => {
                            match pat_type_ann(p) {
                                None => {},
                                Some(t) => match simple_ref(t) {
                                    None => {},
                                    Some(n) => {
                                        assert(seq![n0] + rest.push(n) =~= (seq![n0]
                                            + rest).push(n));
                                    },
                                },
                            }
                        },
                    }
                },
            },
        }
    }
}

/// The mathematical shadow of a capability signature.
pub ghost struct TaskMethodModel {
    pub params: Seq<Seq<char>>,
    pub return_type: Option<Seq<char>>,
    pub hint: Seq<char>,
}

/// One capability exposed by a task: its parameter type names, its optional
/// return type name, and its human-readable hint.
#[derive(Debug)]
pub struct TaskMethod {
    pub params: Vec<String>,
    pub return_type: Option<String>,
    pub hint: String,
}

impl TaskMethod {
    pub open spec fn model(self) -> TaskMethodModel {
        TaskMethodModel {
            params: names_view(self.params@),
            return_type: match self.return_type {
                Some(r) => Some(r@),
                None => None,
            },
            hint: self.hint@,
        }
    }

    /// The type annotation of a parameter pattern, where its binding shape
    /// can carry one.
    pub fn type_ann_from_pat<'a>(pat: &'a Param) -> (r: Option<&'a TypeExpr>)
        ensures
            match r {
                Some(t) => pat_type_ann(*pat) == Some(*t),
                None => pat_type_ann(*pat) is None,
            },
    {
        match pat.kind {
            PatKind::OtherPat => None,
            _ => pat.type_ann.as_ref(),
        }
    }
}

/// What extracting one method yields: not a capability (no hint decorator),
/// a capability signature, or a malformed-signature failure.
pub open spec fn spec_from_method(m: MethodNode) -> Result<Option<TaskMethodModel>, ExtractError> {
    match spec_first_match("hint"@, m.decorators@) {
        None => Ok(None),
        Some(hint) => match param_names(m.params@) {
            None => Err(ExtractError::MalformedSignature),
            Some(ps) => match m.return_type {
                None => Ok(Some(TaskMethodModel { params: ps, return_type: None, hint })),
                Some(t) => match simple_ref(t) {
                    None => Err(ExtractError::MalformedSignature),
                    Some(rn) => Ok(
                        Some(TaskMethodModel { params: ps, return_type: Some(rn), hint }),
                    ),
                },
            },
        },
    }
}

impl TaskMethod {
    /// Extract one capability from a method: a method without a hint
    /// decorator is not a capability (and not an error); a hinted method
    /// whose parameters or return type are not simple references to named
    /// types fails extraction.
    pub fn from_method(n: &MethodNode) -> (r: Result<Option<TaskMethod>, ExtractError>)
        ensures
            match r {
                Ok(Some(tm)) => spec_from_method(*n) == Ok::<Option<TaskMethodModel>, ExtractError>(
                    Some(tm.model()),
                ),
                Ok(None) => spec_from_method(*n) == Ok::<Option<TaskMethodModel>, ExtractError>(
                    None,
                ),
                Err(e) => spec_from_method(*n) == Err::<Option<TaskMethodModel>, ExtractError>(e),
            },
    {
        let hint = match MatchCallStrLit::new("hint").first_match_decorator(&n.decorators) {
            None => {
                return Ok(None);
            },
            Some(hint) => hint,
        };
        let mut params: Vec<String> = Vec::new();
        let mut i: usize = 0;
        proof {
            assert(n.params@.take(0) =~= Seq::<Param>::empty());
            assert(names_view(params@) =~= Seq::<Seq<char>>::empty());
        }
        while i < n.params.len()
            invariant
                spec_first_match("hint"@, n.decorators@) == Some(hint@),
                0 <= i <= n.params@.len(),
                param_names(n.params@.take(i as int)) == Some(names_view(params@)),
            decreases n.params@.len() - i,
        {
            let ann = match TaskMethod::type_ann_from_pat(&n.params[i]) {
                None => {
                    proof {
                        lemma_param_names_snoc(n.params@.take(i as int), n.params@[i as int]);
                        assert(n.params@.take(i + 1) =~= n.params@.take(i as int).push(
                            n.params@[i as int],
                        ));
                        lemma_param_names_prefix_none(n.params@, i + 1);
                    }
                    return Err(ExtractError::MalformedSignature);
                },
                Some(ann) => ann,
            };
            let name = match TypeAliasMap::ts_type_to_id(ann) {
                None => {
                    proof {
                        lemma_param_names_snoc(n.params@.take(i as int), n.params@[i as int]);
                        assert(n.params@.take(i + 1) =~= n.params@.take(i as int).push(
                            n.params@[i as int],
                        ));
                        lemma_param_names_prefix_none(n.params@, i + 1);
                    }
                    return Err(ExtractError::MalformedSignature);
                },
                Some(name) => name,
            };
            let simple = match ann {
                TypeExpr::Ref { name: _, args } => args.len() == 0,
                _ => false,
            };
            if !simple {
                proof {
                    lemma_param_names_snoc(n.params@.take(i as int), n.params@[i as int]);
                    assert(n.params@.take(i + 1) =~= n.params@.take(i as int).push(
                        n.params@[i as int],
                    ));
                    lemma_param_names_prefix_none(n.params@, i + 1);
                }
                return Err(ExtractError::MalformedSignature);
            }
            let ghost pre = names_view(params@);
            params.push(name);
            proof {
                assert(pat_type_ann(n.params@[i as int]) is Some);
                assert(simple_ref(pat_type_ann(n.params@[i as int])->Some_0) == Some(name@));
                lemma_param_names_snoc(n.params@.take(i as int), n.params@[i as int]);
                assert(n.params@.take(i + 1) =~= n.params@.take(i as int).push(
                    n.params@[i as int],
                ));
                assert(names_view(params@) =~= pre.push(name@));
            }
            i = i + 1;
        }
        proof {
            assert(n.params@.take(n.params@.len() as int) =~= n.params@);
        }
        let return_type = match &n.return_type {
            None => None,
            Some(t) => {
                let simple = match t {
                    TypeExpr::Ref { name: _, args } => args.len() == 0,
                    _ => false,
                };
                if !simple {
                    return Err(ExtractError::MalformedSignature);
                }
                match TypeAliasMap::ts_type_to_id(t) {
                    None => {
                        return Err(ExtractError::MalformedSignature);
                    },
                    Some(name) => Some(name),
                }
            },
        };
        Ok(Some(TaskMethod { params, return_type, hint }))
    }
}

/// If a prefix of the parameters fails extraction, the whole list does.
proof fn lemma_param_names_prefix_none(ps: Seq<Param>, i: int)
    requires
        0 <= i <= ps.len(),
        param_names(ps.take(i)) is None,
    ensures
        param_names(ps) is None,
    decreases ps.len() - i,
{
    if i == ps.len() {
        assert(ps.take(i) =~= ps);
    } else {
        lemma_param_names_snoc(ps.take(i), ps[i]);
        assert(ps.take(i + 1) =~= ps.take(i).push(ps[i]));
        lemma_param_names_prefix_none(ps, i + 1);
    }
}

/// The mathematical shadow of a task: its name, description, declared
/// output type and capabilities.
pub ghost struct TaskModel {
    pub name: Seq<char>,
    pub description: Seq<char>,
    pub output: TypeExpr,
    pub methods: Seq<(Seq<char>, TaskMethodModel)>,
}

/// One task definition found in source: its name, its human description,
/// its declared output type, and its capabilities in declaration order.
#[derive(Debug)]
pub struct Task {
    pub name: String,
    pub description: String,
    pub output: TypeExpr,
    pub methods: Vec<(String, TaskMethod)>,
}

/// The models of a capability list.
pub open spec fn methods_view(ms: Seq<(String, TaskMethod)>) -> Seq<(Seq<char>, TaskMethodModel)> {
    ms.map_values(|p: (String, TaskMethod)| (p.0@, p.1.model()))
}

impl Task {
    pub open spec fn model(self) -> TaskModel {
        TaskModel {
            name: self.name@,
            description: self.description@,
            output: self.output,
            methods: methods_view(self.methods@),
        }
    }

    /// The first type argument of the extended base, if there is one.
    pub fn get_type_param_as_ts_type<'a>(n: &'a ClassNode) -> (r: Option<&'a TypeExpr>)
        ensures
            match r {
                Some(t) => n.super_type_args@.len() >= 1 && *t == n.super_type_args@[0],
                None => n.super_type_args@.len() == 0,
            },
    {
        if n.super_type_args.len() >= 1 {
            Some(&n.super_type_args[0])
        } else {
            None
        }
    }
}

/// The capabilities a class body yields, in order: hinted methods with
/// well-formed signatures; methods without a hint or without an identifier
/// name are skipped; a hinted method with a malformed signature fails the
/// whole task.
pub open spec fn extract_methods(ms: Seq<ClassMemberNode>) -> Result<
    Seq<(Seq<char>, TaskMethodModel)>,
    ExtractError,
>
    decreases ms.len(),
{
    if ms.len() == 0 {
        Ok(seq![])
    } else {
        match extract_methods(ms.drop_last()) {
            Err(e) => Err(e),
            Ok(prev) => match ms.last() {
                ClassMemberNode::MethodMember(m) => match m.name {
                    Some(nm) => match spec_from_method(m) {
                        Err(e) => Err(e),
                        Ok(None) => Ok(prev),
                        Ok(Some(model)) => Ok(prev.push((nm@, model))),
                    },
                    None => Ok(prev),
                },
                _ => Ok(prev),
            },
        }
    }
}

/// Once a prefix of the members fails extraction, the whole body does.
proof fn lemma_extract_methods_prefix_err(ms: Seq<ClassMemberNode>, i: int)
    requires
        0 <= i <= ms.len(),
        extract_methods(ms.take(i)) is Err,
    ensures
        extract_methods(ms) is Err,
    decreases ms.len() - i,
{
    if i == ms.len() {
        assert(ms.take(i) =~= ms);
    } else {
        assert(ms.take(i + 1).drop_last() =~= ms.take(i));
        assert(ms.take(i + 1).last() == ms[i]);
        lemma_extract_methods_prefix_err(ms, i + 1);
    }
}

/// What matching one class against the task pattern yields: not a task (no
/// description decorator, or no single-type-argument base), a task, or a
/// malformed-capability failure.
pub open spec fn spec_match_class(c: ClassNode) -> Result<Option<TaskModel>, ExtractError> {
    match spec_first_match("task"@, c.decorators@) {
        None => Ok(None),
        Some(desc) => if c.super_type_args@.len() != 1 {
            Ok(None)
        } else {
            match extract_methods(c.members@) {
                Err(e) => Err(e),
                Ok(ms) => Ok(
                    Some(
                        TaskModel {
                            name: c.name@,
                            description: desc,
                            output: c.super_type_args@[0],
                            methods: ms,
                        },
                    ),
                ),
            }
        },
    }
}

impl Task {
    /// Match one class declaration against the task pattern.
    pub fn match_class_decl(c: ClassNode) -> (r: Result<Option<Task>, ExtractError>)
        ensures
            match r {
                Ok(Some(t)) => spec_match_class(c) == Ok::<Option<TaskModel>, ExtractError>(
                    Some(t.model()),
                ),
                Ok(None) => spec_match_class(c) == Ok::<Option<TaskModel>, ExtractError>(None),
                Err(e) => spec_match_class(c) == Err::<Option<TaskModel>, ExtractError>(e),
            },
    {
        let description = match MatchCallStrLit::new("task").first_match_decorator(&c.decorators) {
            None => {
                return Ok(None);
            },
            Some(d) => d,
        };
        if c.super_type_args.len() != 1 {
            return Ok(None);
        }
        let mut methods: Vec<(String, TaskMethod)> = Vec::new();
        let mut i: usize = 0;
        proof {
            assert(c.members@.take(0) =~= Seq::<ClassMemberNode>::empty());
            assert(methods_view(methods@) =~= Seq::<(Seq<char>, TaskMethodModel)>::empty());
        }
        while i < c.members.len()
            invariant
                spec_first_match("task"@, c.decorators@) == Some(description@),
                c.super_type_args@.len() == 1,
                0 <= i <= c.members@.len(),
                extract_methods(c.members@.take(i as int)) == Ok::<
                    Seq<(Seq<char>, TaskMethodModel)>,
                    ExtractError,
                >(methods_view(methods@)),
            decreases c.members@.len() - i,
        {
            proof {
                assert(c.members@.take(i + 1).drop_last() =~= c.members@.take(i as int));
                assert(c.members@.take(i + 1).last() == c.members@[i as int]);
            }
            match &c.members[i] {
                ClassMemberNode::MethodMember(m) => {
                    match &m.name {
                        Some(nm) => {
                            match TaskMethod::from_method(m) {
                                Err(e) => {
                                    proof {
                                        lemma_extract_methods_prefix_err(c.members@, i + 1);
                                    }
                                    return Err(e);
                                },
                                Ok(None) => {},
                                Ok(Some(tm)) => {
                                    let ghost pre = methods_view(methods@);
                                    methods.push((nm.clone(), tm));
                                    proof {
                                        assert(methods_view(methods@) =~= pre.push(
                                            (nm@, tm.model()),
                                        ));
                                    }
                                },
                            }
                        },
                        None => {},
                    }
                },
                _ => {},
            }
            i = i + 1;
        }
        proof {
            assert(c.members@.take(c.members@.len() as int) =~= c.members@);
        }
        let ClassNode { name, decorators: _, super_type_args, members: _, text: _ } = c;
        let mut super_type_args = super_type_args;
        let output = super_type_args.remove(0);
        Ok(Some(Task { name, description, output, methods }))
    }
}

/// The per-module table of extracted tasks, keyed by task name; announcing
/// the same name again overwrites (deliberately last-wins, with no
/// uniqueness check).
#[derive(Debug)]
pub struct TaskMap {
    pub tasks: Vec<(String, Task)>,
}

/// The models of the task table.
pub open spec fn tasks_view(ts: Seq<(String, Task)>) -> Seq<(Seq<char>, TaskModel)> {
    ts.map_values(|p: (String, Task)| (p.0@, p.1.model()))
}

/// Where `name` first stands in the table, or -1.
pub open spec fn task_index(ts: Seq<(Seq<char>, TaskModel)>, name: Seq<char>) -> int
    decreases ts.len(),
{
    if ts.len() == 0 {
        -1
    } else if ts[0].0 == name {
        0
    } else {
        let r = task_index(ts.drop_first(), name);
        if r < 0 {
            -1
        } else {
            r + 1
        }
    }
}

/// Recording a task: overwrite the entry of its name, or append it.
pub open spec fn task_record_spec(
    ts: Seq<(Seq<char>, TaskModel)>,
    name: Seq<char>,
    t: TaskModel,
) -> Seq<(Seq<char>, TaskModel)> {
    let i = task_index(ts, name);
    if i >= 0 {
        ts.update(i, (name, t))
    } else {
        ts.push((name, t))
    }
}

/// The first entry of `name` in the table, if any.
pub open spec fn task_lookup(ts: Seq<(Seq<char>, TaskModel)>, name: Seq<char>) -> Option<TaskModel>
    decreases ts.len(),
{
    if ts.len() == 0 {
        None
    } else if ts[0].0 == name {
        Some(ts[0].1)
    } else {
        task_lookup(ts.drop_first(), name)
    }
}

proof fn lemma_task_index_found(ts: Seq<(Seq<char>, TaskModel)>, name: Seq<char>, i: int)
    requires
        0 <= i < ts.len(),
        forall|j: int| 0 <= j < i ==> (#[trigger] ts[j]).0 != name,
        ts[i].0 == name,
    ensures
        task_index(ts, name) == i,
    decreases i,
{
    if i == 0 {
    } else {
        assert(ts.drop_first()[i - 1] == ts[i]);
        assert forall|j: int| 0 <= j < i - 1 implies (#[trigger] ts.drop_first()[j]).0 != name by {
            assert(ts.drop_first()[j] == ts[j + 1]);
        }
        lemma_task_index_found(ts.drop_first(), name, i - 1);
    }
}

proof fn lemma_task_index_none(ts: Seq<(Seq<char>, TaskModel)>, name: Seq<char>)
    requires
        forall|j: int| 0 <= j < ts.len() ==> (#[trigger] ts[j]).0 != name,
    ensures
        task_index(ts, name) == -1,
    decreases ts.len(),
{
    if ts.len() > 0 {
        assert forall|j: int| 0 <= j < ts.drop_first().len() implies (#[trigger] ts.drop_first()[j]).0
            != name by {
            assert(ts.drop_first()[j] == ts[j + 1]);
        }
        lemma_task_index_none(ts.drop_first(), name);
    }
}

impl Default for TaskMap {
    /// An empty task table.
    fn default() -> (r: Self)
        ensures
            r.tasks@.len() == 0,
    {
        TaskMap { tasks: Vec::new() }
    }
}

impl TaskMap {
    /// The task of `task_name`, if the table has one.
    pub fn get<'a>(&'a self, task_name: &str) -> (r: Option<&'a Task>)
        ensures
            match r {
                Some(t) => task_lookup(tasks_view(self.tasks@), task_name@) == Some(t.model()),
                None => task_lookup(tasks_view(self.tasks@), task_name@) is None,
            },
    {
        let owned = task_name.to_owned();
        let ghost tv = tasks_view(self.tasks@);
        let mut i: usize = 0;
        proof {
            assert(tv.skip(0) =~= tv);
        }
        while i < self.tasks.len()
            invariant
                tv == tasks_view(self.tasks@),
                owned@ == task_name@,
                0 <= i <= self.tasks@.len(),
                task_lookup(tv, task_name@) == task_lookup(tv.skip(i as int), task_name@),
                forall|j: int| 0 <= j < i ==> (#[trigger] tv[j]).0 != task_name@,
            decreases self.tasks@.len() - i,
        {
            proof {
                assert(tv.skip(i as int)[0] == tv[i as int]);
                assert(tv.skip(i as int).drop_first() =~= tv.skip(i + 1));
            }
            if self.tasks[i].0.eq(&owned) {
                return Some(&self.tasks[i].1);
            }
            i = i + 1;
        }
        proof {
            assert(tv.skip(tv.len() as int) =~= Seq::<(Seq<char>, TaskModel)>::empty());
        }
        None
    }

    /// Record a task under its name, overwriting any earlier task of that
    /// name.
    pub fn insert(&mut self, task_name: String, task: Task)
        ensures
            tasks_view(final(self).tasks@) == task_record_spec(
                tasks_view(old(self).tasks@),
                task_name@,
                task.model(),
            ),
    {
        let ghost tv = tasks_view(self.tasks@);
        let mut i: usize = 0;
        while i < self.tasks.len()
            invariant
                self.tasks@ == old(self).tasks@,
                tv == tasks_view(self.tasks@),
                0 <= i <= self.tasks@.len(),
                forall|j: int| 0 <= j < i ==> (#[trigger] tv[j]).0 != task_name@,
            decreases self.tasks@.len() - i,
        {
            if self.tasks[i].0.eq(&task_name) {
                proof {
                    assert(tv[i as int].0 == task_name@);
                    lemma_task_index_found(tv, task_name@, i as int);
                }
                self.tasks.set(i, (task_name, task));
                proof {
                    assert(tasks_view(self.tasks@) =~= tv.update(
                        task_index(tv, task_name@),
                        (task_name@, task.model()),
                    ));
                }
                return ;
            }
            i = i + 1;
        }
        proof {
            lemma_task_index_none(tv, task_name@);
        }
        self.tasks.push((task_name, task));
        proof {
            assert(tasks_view(self.tasks@) =~= tv.push((task_name@, task.model())));
        }
    }
}

/// Extracts tasks from class declarations into a task table.
pub struct TaskVisitor {
    pub task_map: TaskMap,
}

impl TaskVisitor {
    pub fn new(task_map: TaskMap) -> (r: Self)
        ensures
            r.task_map == task_map,
    {
        TaskVisitor { task_map }
    }

    /// Offer one class to the extractor: a matching class is recorded under
    /// its name (overwriting an earlier task of that name); a class that is
    /// no task changes nothing; a malformed task is reported and skipped.
    pub fn visit_class_decl(&mut self, n: ClassNode) -> (r: Result<bool, ExtractError>)
        ensures
            match spec_match_class(n) {
                Ok(Some(tm)) => r == Ok::<bool, ExtractError>(true) && tasks_view(
                    final(self).task_map.tasks@,
                ) == task_record_spec(tasks_view(old(self).task_map.tasks@), tm.name, tm),
                Ok(None) => r == Ok::<bool, ExtractError>(false) && *final(self) == *old(self),
                Err(e) => r == Err::<bool, ExtractError>(e) && *final(self) == *old(self),
            },
    {
        let ghost n0 = n;
        match Task::match_class_decl(n) {
            Ok(Some(task)) => {
                let name = task.name.clone();
                proof {
                    assert(name@ == spec_match_class(n0)->Ok_0->Some_0.name);
                }
                self.task_map.insert(name, task);
                Ok(true)
            },
            Ok(None) => Ok(false),
            Err(e) => Err(e),
        }
    }
}

/// The catalog a module's items add to an existing catalog.
pub open spec fn fold_aliases(init: Seq<TypeAliasDecl>, items: Seq<ModuleItem>) -> Seq<
    TypeAliasDecl,
>
    decreases items.len(),
{
    if items.len() == 0 {
        init
    } else {
        let prev = fold_aliases(init, items.drop_last());
        match items.last() {
            ModuleItem::TypeAliasItem(d) => record_alias_spec(prev, d),
            _ => prev,
        }
    }
}

/// The task table a module's items add to an existing table; malformed
/// tasks are skipped.
pub open spec fn fold_tasks(
    init: Seq<(Seq<char>, TaskModel)>,
    items: Seq<ModuleItem>,
) -> Seq<(Seq<char>, TaskModel)>
    decreases items.len(),
{
    if items.len() == 0 {
        init
    } else {
        let prev = fold_tasks(init, items.drop_last());
        match items.last() {
            ModuleItem::ClassItem(c) => match spec_match_class(c) {
                Ok(Some(tm)) => task_record_spec(prev, tm.name, tm),
                _ => prev,
            },
            _ => prev,
        }
    }
}

/// The names of the classes whose task extraction fails, in order.
pub open spec fn fold_failed(items: Seq<ModuleItem>) -> Seq<Seq<char>>
    decreases items.len(),
{
    if items.len() == 0 {
        seq![]
    } else {
        let prev = fold_failed(items.drop_last());
        match items.last() {
            ModuleItem::ClassItem(c) => if spec_match_class(c) is Err {
                prev.push(c.name@)
            } else {
                prev
            },
            _ => prev,
        }
    }
}

/// Why a compiler query failed.
#[derive(Clone, Copy, PartialEq, Eq, Structural, Debug)]
pub enum CompileError {
    UnknownTask,
}

/// The media type of a fetched module, as far as the compiler decides what
/// to do with it.
#[derive(Clone, Copy, PartialEq, Eq, Structural, Debug)]
pub enum MediaType {
    JavaScript,
    Jsx,
    Mjs,
    Cjs,
    TypeScript,
    Mts,
    Cts,
    Dts,
    Dmts,
    Dcts,
    Tsx,
    Json,
    Wasm,
    SourceMap,
    Unknown,
}

/// How a loaded module is handed to the evaluator.
#[derive(Clone, Copy, PartialEq, Eq, Structural, Debug)]
pub enum ModuleType {
    JavaScript,
    Json,
}

/// Whether a media type is one the compiler parses and processes: the
/// TypeScript family, including declaration files and JSX dialects.
pub open spec fn spec_should_process(media_type: MediaType) -> bool {
    match media_type {
        MediaType::TypeScript => true,
        MediaType::Mts => true,
        MediaType::Cts => true,
        MediaType::Dts => true,
        MediaType::Dmts => true,
        MediaType::Dcts => true,
        MediaType::Tsx => true,
        MediaType::Jsx => true,
        _ => false,
    }
}

/// The roots of a task's type closure: every reference of its output type,
/// then, per capability, its return type name (if any) and its parameter
/// type names.
pub open spec fn method_roots(m: TaskMethodModel) -> Seq<Seq<char>> {
    (match m.return_type {
        Some(r) => seq![r],
        None => Seq::<Seq<char>>::empty(),
    }) + m.params
}

pub open spec fn methods_roots(ms: Seq<(Seq<char>, TaskMethodModel)>) -> Seq<Seq<char>>
    decreases ms.len(),
{
    if ms.len() == 0 {
        seq![]
    } else {
        method_roots(ms[0].1) + methods_roots(ms.drop_first())
    }
}

pub open spec fn task_roots(t: TaskModel) -> Seq<Seq<char>> {
    refs_of(t.output) + methods_roots(t.methods)
}

proof fn lemma_methods_roots_append(
    a: Seq<(Seq<char>, TaskMethodModel)>,
    b: Seq<(Seq<char>, TaskMethodModel)>,
)
    ensures
        methods_roots(a + b) == methods_roots(a) + methods_roots(b),
    decreases a.len(),
{
    if a.len() == 0 {
        assert(a + b =~= b);
        assert(methods_roots(a) + methods_roots(b) =~= methods_roots(b));
    } else {
        assert((a + b).drop_first() =~= a.drop_first() + b);
        lemma_methods_roots_append(a.drop_first(), b);
        assert((a + b)[0] == a[0]);
        assert(method_roots(a[0].1) + (methods_roots(a.drop_first()) + methods_roots(b)) =~= (
        method_roots(a[0].1) + methods_roots(a.drop_first())) + methods_roots(b));
    }
}

/// The rendered type declarations of the context document: each catalog
/// entry whose identifier is in the closure, in catalog order, each
/// followed by a newline.
pub open spec fn render_decls(entries: Seq<TypeAliasDecl>, cl: Set<Seq<char>>) -> Seq<char>
    decreases entries.len(),
{
    if entries.len() == 0 {
        Seq::<char>::empty()
    } else {
        (if cl.contains(entries[0].id@) {
            entries[0].text@ + "\n"@
        } else {
            Seq::<char>::empty()
        }) + render_decls(entries.drop_first(), cl)
    }
}

proof fn lemma_render_decls_append(a: Seq<TypeAliasDecl>, b: Seq<TypeAliasDecl>, cl: Set<Seq<char>>)
    ensures
        render_decls(a + b, cl) == render_decls(a, cl) + render_decls(b, cl),
    decreases a.len(),
{
    if a.len() == 0 {
        assert(a + b =~= b);
        assert(render_decls(a, cl) + render_decls(b, cl) =~= render_decls(b, cl));
    } else {
        assert((a + b).drop_first() =~= a.drop_first() + b);
        lemma_render_decls_append(a.drop_first(), b, cl);
        assert((a + b)[0] == a[0]);
        let h = if cl.contains(a[0].id@) {
            a[0].text@ + "\n"@
        } else {
            Seq::<char>::empty()
        };
        assert(h + (render_decls(a.drop_first(), cl) + render_decls(b, cl)) =~= (h + render_decls(
            a.drop_first(),
            cl,
        )) + render_decls(b, cl));
    }
}

/// The rendered parameter list of a method stub: each parameter as an
/// anonymized binding with its type annotation.
pub open spec fn render_more_params(ps: Seq<Seq<char>>) -> Seq<char>
    decreases ps.len(),
{
    if ps.len() == 0 {
        Seq::<char>::empty()
    } else {
        ", _: "@ + ps[0] + render_more_params(ps.drop_first())
    }
}

pub open spec fn render_params(ps: Seq<Seq<char>>) -> Seq<char> {
    if ps.len() == 0 {
        Seq::<char>::empty()
    } else {
        "_: "@ + ps[0] + render_more_params(ps.drop_first())
    }
}

/// One rendered method stub: the hint as a comment, then a body-less
/// function declaration carrying the original annotations.
pub open spec fn render_stub(name: Seq<char>, m: TaskMethodModel) -> Seq<char> {
    "\n// hint: "@ + m.hint + "\nfunction "@ + name + "("@ + render_params(m.params) + ")"@ + (
    match m.return_type {
        Some(r) => ": "@ + r,
        None => Seq::<char>::empty(),
    }) + ";\n"@
}

/// The rendered method stubs of a task, in declaration order.
pub open spec fn render_methods(ms: Seq<(Seq<char>, TaskMethodModel)>) -> Seq<char>
    decreases ms.len(),
{
    if ms.len() == 0 {
        Seq::<char>::empty()
    } else {
        render_stub(ms[0].0, ms[0].1) + render_methods(ms.drop_first())
    }
}

proof fn lemma_render_methods_append(
    a: Seq<(Seq<char>, TaskMethodModel)>,
    b: Seq<(Seq<char>, TaskMethodModel)>,
)
    ensures
        render_methods(a + b) == render_methods(a) + render_methods(b),
    decreases a.len(),
{
    if a.len() == 0 {
        assert(a + b =~= b);
        assert(render_methods(a) + render_methods(b) =~= render_methods(b));
    } else {
        assert((a + b).drop_first() =~= a.drop_first() + b);
        lemma_render_methods_append(a.drop_first(), b);
        assert((a + b)[0] == a[0]);
        assert(render_stub(a[0].0, a[0].1) + (render_methods(a.drop_first()) + render_methods(b))
            =~= (render_stub(a[0].0, a[0].1) + render_methods(a.drop_first())) + render_methods(
            b,
        ));
    }
}

/// The whole context document of a task against a catalog: the rendered
/// declarations of the task's type closure (in catalog order, a stable,
/// deterministic choice), then the task's method stubs.  It contains no
/// function body and no decorator: it describes capability, not
/// implementation.
pub open spec fn render_context(entries: Seq<TypeAliasDecl>, t: TaskModel) -> Seq<char> {
    render_decls(entries, closure_set(entries, task_roots(t))) + render_methods(t.methods)
}

/// The static-analysis compiler of one process: the type-alias catalog and
/// the task table that loaded modules build up.
pub struct Compiler {
    pub type_map: TypeAliasMap,
    pub task_map: TaskMap,
}

impl Compiler {
    /// A fresh compiler with an empty catalog and an empty task table.
    pub fn new() -> (r: Self)
        ensures
            r.type_map.entries@.len() == 0,
            r.task_map.tasks@.len() == 0,
    {
        Compiler { type_map: TypeAliasMap::default(), task_map: TaskMap::default() }
    }

    /// The module type a loaded module is evaluated as: JSON stays JSON,
    /// everything else runs as JavaScript.
    pub fn module_type_from_media_type(media_type: &MediaType) -> (r: ModuleType)
        ensures
            r == (match *media_type {
                MediaType::Json => ModuleType::Json,
                _ => ModuleType::JavaScript,
            }),
    {
        match media_type {
            MediaType::Json => ModuleType::Json,
            _ => ModuleType::JavaScript,
        }
    }

    /// Whether the compiler parses and processes this media type.
    pub fn should_process_from_media_type(media_type: &MediaType) -> (r: bool)
        ensures
            r == spec_should_process(*media_type),
    {
        match media_type {
            MediaType::TypeScript
            | MediaType::Mts
            | MediaType::Cts
            | MediaType::Dts
            | MediaType::Dmts
            | MediaType::Dcts
            | MediaType::Tsx
            | MediaType::Jsx => true,
            _ => false,
        }
    }

    /// Register one parsed module: record its type aliases into the
    /// catalog and its tasks into the task table, and report the names of
    /// the classes whose task extraction failed (each such task is skipped;
    /// the rest of the module is still processed).
    pub fn register_module(&mut self, module: Module) -> (failed: Vec<String>)
        ensures
            final(self).type_map.entries@ == fold_aliases(
                old(self).type_map.entries@,
                module.items@,
            ),
            tasks_view(final(self).task_map.tasks@) == fold_tasks(
                tasks_view(old(self).task_map.tasks@),
                module.items@,
            ),
            names_view(failed@) == fold_failed(module.items@),
    {
        let ghost src = module.items@;
        let ghost aliases0 = self.type_map.entries@;
        let ghost tasks0 = tasks_view(self.task_map.tasks@);
        let mut items = module.items;
        let nsrc: usize = items.len();
        let mut failed: Vec<String> = Vec::new();
        let mut i: usize = 0;
        proof {
            assert(src.len() == nsrc as int);
            assert(items@ =~= src.skip(0));
            assert(src.take(0) =~= Seq::<ModuleItem>::empty());
            assert(names_view(failed@) =~= Seq::<Seq<char>>::empty());
        }
        while items.len() > 0
            invariant
                src.len() <= usize::MAX,
                0 <= i <= src.len(),
                items@.len() + i == src.len(),
                items@ == src.skip(i as int),
                self.type_map.entries@ == fold_aliases(aliases0, src.take(i as int)),
                tasks_view(self.task_map.tasks@) == fold_tasks(tasks0, src.take(i as int)),
                names_view(failed@) == fold_failed(src.take(i as int)),
            decreases items@.len(),
        {
            let item = items.remove(0);
            proof {
                assert(items@ =~= src.skip(i + 1));
                assert(item == src[i as int]);
                assert(src.take(i + 1).drop_last() =~= src.take(i as int));
                assert(src.take(i + 1).last() == src[i as int]);
            }
            match item {
                ModuleItem::TypeAliasItem(d) => {
                    self.type_map.insert_decl(d);
                },
                ModuleItem::ClassItem(c) => {
                    let ghost cname = c.name@;
                    let name = c.name.clone();
                    match Task::match_class_decl(c) {
                        Ok(Some(task)) => {
                            let tname = task.name.clone();
                            self.task_map.insert(tname, task);
                        },
                        Ok(None) => {},
                        Err(_) => {
                            let ghost pre = names_view(failed@);
                            failed.push(name);
                            proof {
                                assert(names_view(failed@) =~= pre.push(cname));
                            }
                        },
                    }
                },
                ModuleItem::FnItem(_) => {},
                ModuleItem::OtherItem => {},
            }
            i = i + 1;
        }
        proof {
            assert(src.take(src.len() as int) =~= src);
        }
        failed
    }

    /// The task's human-readable description, verbatim as its decorator
    /// supplied it.
    pub fn get_task_description(&self, task_name: &str) -> (r: Result<String, CompileError>)
        ensures
            match r {
                Ok(s) => task_lookup(tasks_view(self.task_map.tasks@), task_name@) is Some && s@
                    == task_lookup(tasks_view(self.task_map.tasks@), task_name@)->Some_0.description,
                Err(e) => e == CompileError::UnknownTask && task_lookup(
                    tasks_view(self.task_map.tasks@),
                    task_name@,
                ) is None,
            },
    {
        match self.task_map.get(task_name) {
            Some(task) => Ok(task.description.clone()),
            None => Err(CompileError::UnknownTask),
        }
    }

    /// Render the context document of a task: the declarations of every
    /// locally-declared type its interface depends on (its type closure,
    /// in catalog order), then one body-less stub per capability, each
    /// preceded by its hint.
    pub fn print_task_context(&self, task_name: &str) -> (r: Result<String, CompileError>)
        ensures
            match r {
                Ok(doc) => task_lookup(tasks_view(self.task_map.tasks@), task_name@) is Some && doc@
                    == render_context(
                    self.type_map.entries@,
                    task_lookup(tasks_view(self.task_map.tasks@), task_name@)->Some_0,
                ),
                Err(e) => e == CompileError::UnknownTask && task_lookup(
                    tasks_view(self.task_map.tasks@),
                    task_name@,
                ) is None,
            },
    {
        let task = match self.task_map.get(task_name) {
            Some(task) => task,
            None => {
                return Err(CompileError::UnknownTask);
            },
        };
        let ghost tm = task.model();
        // gather the closure roots: output refs, then per method its return
        // type and parameter types
        let mut roots: Vec<String> = collect_refs(&task.output);
        let mut k: usize = 0;
        proof {
            assert(methods_roots(tm.methods.take(0)) =~= Seq::<Seq<char>>::empty());
            assert(names_view(roots@) =~= refs_of(tm.output) + methods_roots(tm.methods.take(0)));
        }
        while k < task.methods.len()
            invariant
                tm == task.model(),
                0 <= k <= task.methods@.len(),
                names_view(roots@) == refs_of(tm.output) + methods_roots(
                    tm.methods.take(k as int),
                ),
            decreases task.methods@.len() - k,
        {
            let ghost pre = names_view(roots@);
            let m = &task.methods[k].1;
            proof {
                assert(tm.methods[k as int] == (task.methods@[k as int].0@, m.model()));
            }
            match &m.return_type {
                Some(rt) => {
                    roots.push(rt.clone());
                },
                None => {},
            }
            let mut ps = crate::closure::clone_names(&m.params);
            let ghost mid = names_view(roots@);
            roots.append(&mut ps);
            proof {
                assert(names_view(roots@) =~= mid + names_view(m.params@));
                assert(mid =~= pre + (match m.model().return_type {
                    Some(r) => seq![r],
                    None => Seq::<Seq<char>>::empty(),
                }));
                assert(names_view(roots@) =~= pre + method_roots(m.model()));
                assert(tm.methods.take(k + 1) =~= tm.methods.take(k as int) + seq![
                    tm.methods[k as int],
                ]);
                lemma_methods_roots_append(tm.methods.take(k as int), seq![tm.methods[k as int]]);
                assert(seq![tm.methods[k as int]].drop_first() =~= Seq::<
                    (Seq<char>, TaskMethodModel),
                >::empty());
                assert(methods_roots(Seq::<(Seq<char>, TaskMethodModel)>::empty()) =~= Seq::<
                    Seq<char>,
                >::empty());
                assert(methods_roots(seq![tm.methods[k as int]]) =~= method_roots(
                    tm.methods[k as int].1,
                ));
                assert(names_view(roots@) =~= refs_of(tm.output) + methods_roots(
                    tm.methods.take(k + 1),
                ));
            }
            k = k + 1;
        }
        proof {
            assert(tm.methods.take(tm.methods.len() as int) =~= tm.methods);
            assert(names_view(roots@) == task_roots(tm));
        }
        let closure_v = find_closure(&self.type_map.entries, &roots);
        let ghost cl = closure_set(self.type_map.entries@, task_roots(tm));
        let mut doc = String::new();
        let mut i: usize = 0;
        proof {
            assert(render_decls(self.type_map.entries@.take(0), cl) =~= Seq::<char>::empty());
            assert(doc@ =~= render_decls(self.type_map.entries@.take(0), cl));
        }
        while i < self.type_map.entries.len()
            invariant
                tm == task.model(),
                names_view(closure_v@).to_set() == cl,
                cl == closure_set(self.type_map.entries@, task_roots(tm)),
                0 <= i <= self.type_map.entries@.len(),
                doc@ == render_decls(self.type_map.entries@.take(i as int), cl),
            decreases self.type_map.entries@.len() - i,
        {
            let entry = &self.type_map.entries[i];
            let ghost pre = doc@;
            if contains_name(&closure_v, &entry.id) {
                proof {
                    assert(cl.contains(entry.id@));
                }
                doc.append(entry.text.as_str());
                doc.append("\n");
            } else {
                proof {
                    assert(!cl.contains(entry.id@));
                }
            }
            proof {
                let e = self.type_map.entries@[i as int];
                assert(doc@ =~= pre + (if cl.contains(e.id@) {
                    e.text@ + "\n"@
                } else {
                    Seq::<char>::empty()
                }));
                assert(self.type_map.entries@.take(i + 1) =~= self.type_map.entries@.take(
                    i as int,
                ) + seq![e]);
                lemma_render_decls_append(
                    self.type_map.entries@.take(i as int),
                    seq![e],
                    cl,
                );
                assert(seq![e].drop_first() =~= Seq::<TypeAliasDecl>::empty());
                assert(render_decls(Seq::<TypeAliasDecl>::empty(), cl) =~= Seq::<char>::empty());
                assert(render_decls(seq![e], cl) =~= (if cl.contains(e.id@) {
                    e.text@ + "\n"@
                } else {
                    Seq::<char>::empty()
                }) + Seq::<char>::empty());
                assert(doc@ =~= render_decls(self.type_map.entries@.take(i + 1), cl));
            }
            i = i + 1;
        }
        proof {
            assert(self.type_map.entries@.take(self.type_map.entries@.len() as int)
                =~= self.type_map.entries@);
        }
        let ghost decls_part = doc@;
        let mut k: usize = 0;
        proof {
            assert(render_methods(tm.methods.take(0)) =~= Seq::<char>::empty());
            assert(doc@ =~= decls_part + render_methods(tm.methods.take(0)));
        }
        while k < task.methods.len()
            invariant
                tm == task.model(),
                0 <= k <= task.methods@.len(),
                doc@ == decls_part + render_methods(tm.methods.take(k as int)),
            decreases task.methods@.len() - k,
        {
            let ghost pre = doc@;
            let name = &task.methods[k].0;
            let m = &task.methods[k].1;
            proof {
                assert(tm.methods[k as int] == (name@, m.model()));
            }
            doc.append("\n// hint: ");
            doc.append(m.hint.as_str());
            doc.append("\nfunction ");
            doc.append(name.as_str());
            doc.append("(");
            let mut p: usize = 0;
            let ghost params_start = doc@;
            while p < m.params.len()
                invariant
                    tm == task.model(),
                    0 <= p <= m.params@.len(),
                    doc@ == params_start + (if p == 0 {
                        Seq::<char>::empty()
                    } else {
                        "_: "@ + m.params@[0]@ + render_more_params_prefix(
                            names_view(m.params@),
                            p as int,
                        )
                    }),
                decreases m.params@.len() - p,
            {
                if p == 0 {
                    doc.append("_: ");
                } else {
                    doc.append(", _: ");
                }
                doc.append(m.params[p].as_str());
                proof {
                    lemma_render_more_params_prefix_snoc(names_view(m.params@), p as int);
                }
                p = p + 1;
            }
            proof {
                lemma_render_more_params_prefix_full(names_view(m.params@));
                if m.params@.len() == 0 {
                    assert(render_params(m.model().params) =~= Seq::<char>::empty());
                    assert(doc@ =~= params_start + render_params(m.model().params));
                } else {
                    assert(names_view(m.params@)[0] == m.params@[0]@);
                    assert(doc@ =~= params_start + render_params(m.model().params));
                }
            }
            doc.append(")");
            match &m.return_type {
                Some(rt) => {
                    doc.append(": ");
                    doc.append(rt.as_str());
                },
                None => {},
            }
            doc.append(";\n");
            proof {
                assert(doc@ =~= pre + render_stub(name@, m.model()));
                assert(tm.methods.take(k + 1) =~= tm.methods.take(k as int) + seq![
                    tm.methods[k as int],
                ]);
                lemma_render_methods_append(tm.methods.take(k as int), seq![tm.methods[k as int]]);
                assert(seq![tm.methods[k as int]].drop_first() =~= Seq::<
                    (Seq<char>, TaskMethodModel),
                >::empty());
                assert(render_methods(Seq::<(Seq<char>, TaskMethodModel)>::empty()) =~= Seq::<
                    char,
                >::empty());
                assert(render_methods(seq![tm.methods[k as int]]) =~= render_stub(
                    tm.methods[k as int].0,
                    tm.methods[k as int].1,
                ));
                assert(doc@ =~= decls_part + render_methods(tm.methods.take(k + 1)));
            }
            k = k + 1;
        }
        proof {
            assert(tm.methods.take(tm.methods.len() as int) =~= tm.methods);
            assert(doc@ =~= render_context(self.type_map.entries@, tm));
        }
        Ok(doc)
    }
}

/// The rendering of parameters 1 through `p - 1` (those after the first).
pub open spec fn render_more_params_prefix(ps: Seq<Seq<char>>, p: int) -> Seq<char>
    decreases p,
{
    if p <= 1 {
        Seq::<char>::empty()
    } else {
        render_more_params_prefix(ps, p - 1) + ", _: "@ + ps[p - 1]
    }
}

proof fn lemma_render_more_params_prefix_snoc(ps: Seq<Seq<char>>, p: int)
    requires
        0 <= p < ps.len(),
    ensures
        p == 0 ==> "_: "@ + ps[0] + render_more_params_prefix(ps, 1) =~= "_: "@ + ps[0],
        p >= 1 ==> render_more_params_prefix(ps, p + 1) == render_more_params_prefix(ps, p)
            + ", _: "@ + ps[p],
{
}

/// Once the whole list is rendered, the prefix form is the recursive form.
proof fn lemma_render_more_params_prefix_full(ps: Seq<Seq<char>>)
    ensures
        ps.len() >= 1 ==> "_: "@ + ps[0] + render_more_params_prefix(ps, ps.len() as int)
            == render_params(ps),
{
    if ps.len() >= 1 {
        lemma_prefix_is_more(ps, ps.len() as int);
        assert(ps.drop_first().take(ps.len() - 1) =~= ps.drop_first());
        assert("_: "@ + ps[0] + render_more_params_prefix(ps, ps.len() as int) =~= "_: "@ + ps[0]
            + render_more_params(ps.drop_first()));
    }
}

/// The iterative prefix of the tail rendering equals the recursive tail
/// rendering of the first `p - 1` tail elements.
proof fn lemma_prefix_is_more(ps: Seq<Seq<char>>, p: int)
    requires
        1 <= p <= ps.len(),
    ensures
        render_more_params_prefix(ps, p) == render_more_params(ps.drop_first().take(p - 1)),
    decreases p,
{
    if p == 1 {
        assert(ps.drop_first().take(0) =~= Seq::<Seq<char>>::empty());
    } else {
        lemma_prefix_is_more(ps, p - 1);
        let tail = ps.drop_first();
        assert(tail.take(p - 1) =~= tail.take(p - 2).push(tail[p - 2]));
        lemma_render_more_params_snoc(tail, p - 2);
        assert(tail[p - 2] == ps[p - 1]);
    }
}

proof fn lemma_render_more_params_snoc(ps: Seq<Seq<char>>, n: int)
    requires
        0 <= n < ps.len(),
    ensures
        render_more_params(ps.take(n).push(ps[n])) == render_more_params(ps.take(n)) + ", _: "@
            + ps[n],
    decreases n,
{
    let a = ps.take(n);
    if n == 0 {
        assert(a =~= Seq::<Seq<char>>::empty());
        assert(a.push(ps[0]).drop_first() =~= Seq::<Seq<char>>::empty());
        assert(render_more_params(Seq::<Seq<char>>::empty()) =~= Seq::<char>::empty());
        assert(a.push(ps[0])[0] == ps[0]);
        assert(", _: "@ + ps[0] + Seq::<char>::empty() =~= ", _: "@ + ps[0]);
        assert(render_more_params(a.push(ps[0])) =~= ", _: "@ + ps[0]);
        assert(render_more_params(a) + ", _: "@ + ps[0] =~= ", _: "@ + ps[0]);
    } else {
        assert(a.push(ps[n])[0] == ps[0]);
        assert(a.push(ps[n]).drop_first() =~= ps.drop_first().take(n - 1).push(ps[n]));
        // relate to the recursion over the tail
        lemma_render_more_params_snoc_general(ps.drop_first(), n - 1, ps[n]);
        assert(ps.drop_first().take(n - 1) =~= a.drop_first());
        assert(a[0] == ps[0]);
        assert(", _: "@ + ps[0] + (render_more_params(a.drop_first()) + (", _: "@ + ps[n])) =~= (
        ", _: "@ + ps[0] + render_more_params(a.drop_first())) + (", _: "@ + ps[n]));
        assert(render_more_params(a) =~= ", _: "@ + a[0] + render_more_params(a.drop_first()));
    }
}

proof fn lemma_render_more_params_snoc_general(ps: Seq<Seq<char>>, n: int, x: Seq<char>)
    requires
        0 <= n <= ps.len(),
    ensures
        render_more_params(ps.take(n).push(x)) == render_more_params(ps.take(n)) + (", _: "@ + x),
    decreases n,
{
    let a = ps.take(n);
    if n == 0 {
        assert(a =~= Seq::<Seq<char>>::empty());
        assert(a.push(x).drop_first() =~= Seq::<Seq<char>>::empty());
        assert(render_more_params(Seq::<Seq<char>>::empty()) =~= Seq::<char>::empty());
        assert(a.push(x)[0] == x);
        assert(", _: "@ + x + Seq::<char>::empty() =~= ", _: "@ + x);
        assert(render_more_params(a.push(x)) =~= ", _: "@ + x);
        assert(render_more_params(a) + (", _: "@ + x) =~= ", _: "@ + x);
    } else {
        assert(a.push(x)[0] == ps[0]);
        assert(a.push(x).drop_first() =~= ps.drop_first().take(n - 1).push(x));
        lemma_render_more_params_snoc_general(ps.drop_first(), n - 1, x);
        assert(ps.drop_first().take(n - 1) =~= a.drop_first());
        assert(render_more_params(a) =~= ", _: "@ + a[0] + render_more_params(a.drop_first()));
        assert(", _: "@ + ps[0] + (render_more_params(a.drop_first()) + (", _: "@ + x)) =~= (", _: "@
            + ps[0] + render_more_params(a.drop_first())) + (", _: "@ + x));
    }
}

} // verus!
