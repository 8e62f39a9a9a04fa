//! Filters over a parsed module: single-pass visitors that collect
//! type-alias declarations (last declaration of an identifier wins), class
//! declarations (stripped of bodies and decorators, with their methods'
//! type references gathered), and function declarations.

use vstd::prelude::*;
use crate::ast::{
    collect_refs, names_view, refs_of, ClassMemberNode, ClassNode, FnNode, MethodNode, Module,
    ModuleItem, Param, PropNode, TypeAliasDecl, TypeExpr,
};
use crate::closure::{closure_set, find_closure};

verus! {

/// A reference to a named type.
#[derive(Debug)]
pub struct TypeRef(pub String);

/// The identifiers of a sequence of type references.
pub open spec fn refs_view(v: Seq<TypeRef>) -> Seq<Seq<char>> {
    v.map_values(|r: TypeRef| r.0@)
}

/// The references of an optional type annotation.
pub open spec fn opt_refs(t: Option<TypeExpr>) -> Seq<Seq<char>> {
    match t {
        Some(t) => refs_of(t),
        None => seq![],
    }
}

/// The references of a parameter list, in order.
pub open spec fn params_refs(ps: Seq<Param>) -> Seq<Seq<char>>
    decreases ps.len(),
{
    if ps.len() == 0 {
        seq![]
    } else {
        opt_refs(ps[0].type_ann) + params_refs(ps.drop_first())
    }
}

/// Every type identifier a method's signature references: its parameter
/// annotations, then its return annotation.
pub open spec fn method_refs(m: MethodNode) -> Seq<Seq<char>> {
    params_refs(m.params@) + opt_refs(m.return_type)
}

/// Every type identifier a function declaration's signature references.
pub open spec fn fn_refs(f: FnNode) -> Seq<Seq<char>> {
    params_refs(f.params@) + opt_refs(f.return_type)
}

/// Collects type references from signatures.
#[derive(Debug)]
pub struct TypeRefVisitor {
    pub type_refs: Vec<TypeRef>,
}

impl TypeRefVisitor {
    pub fn new() -> (r: Self)
        ensures
            refs_view(r.type_refs@) == Seq::<Seq<char>>::empty(),
    {
        let r = TypeRefVisitor { type_refs: Vec::new() };
        proof {
            assert(refs_view(r.type_refs@) =~= Seq::<Seq<char>>::empty());
        }
        r
    }

    /// Record every reference inside one type expression.
    pub fn visit_ts_type(&mut self, t: &TypeExpr)
        ensures
            refs_view(final(self).type_refs@) == refs_view(old(self).type_refs@) + refs_of(*t),
    {
        let names = collect_refs(t);
        let ghost pre = refs_view(self.type_refs@);
        let mut i: usize = 0;
        proof {
            assert(names_view(names@.take(0)) =~= Seq::<Seq<char>>::empty());
            assert(refs_view(self.type_refs@) =~= pre + names_view(names@.take(0)));
        }
        while i < names.len()
            invariant
                0 <= i <= names@.len(),
                refs_view(self.type_refs@) == pre + names_view(names@.take(i as int)),
            decreases names@.len() - i,
        {
            let ghost prev = refs_view(self.type_refs@);
            self.type_refs.push(TypeRef(names[i].clone()));
            proof {
                assert(refs_view(self.type_refs@) =~= prev.push(names@[i as int]@));
                assert(names_view(names@.take(i + 1)) =~= names_view(names@.take(i as int)).push(
                    names@[i as int]@,
                ));
                assert(refs_view(self.type_refs@) =~= pre + names_view(names@.take(i + 1)));
            }
            i = i + 1;
        }
        proof {
            assert(names@.take(names@.len() as int) =~= names@);
        }
    }

    /// Record every reference of an optional annotation.
    fn visit_type_ann(&mut self, t: &Option<TypeExpr>)
        ensures
            refs_view(final(self).type_refs@) == refs_view(old(self).type_refs@) + opt_refs(*t),
    {
        match t {
            Some(t) => self.visit_ts_type(t),
            None => {
                proof {
                    assert(refs_view(self.type_refs@) =~= refs_view(self.type_refs@) + opt_refs(
                        None::<TypeExpr>,
                    ));
                }
            },
        }
    }

    /// Record every reference of a method signature: parameter annotations
    /// first, then the return annotation.
    pub fn visit_class_method(&mut self, m: &MethodNode)
        ensures
            refs_view(final(self).type_refs@) == refs_view(old(self).type_refs@) + method_refs(*m),
    {
        let ghost pre = refs_view(self.type_refs@);
        let mut i: usize = 0;
        proof {
            assert(params_refs(m.params@.take(0)) =~= Seq::<Seq<char>>::empty());
            assert(refs_view(self.type_refs@) =~= pre + params_refs(m.params@.take(0)));
        }
        while i < m.params.len()
            invariant
                0 <= i <= m.params@.len(),
                refs_view(self.type_refs@) == pre + params_refs(m.params@.take(i as int)),
            decreases m.params@.len() - i,
        {
            self.visit_type_ann(&m.params[i].type_ann);
            proof {
                lemma_params_refs_append(m.params@.take(i as int), seq![m.params@[i as int]]);
                assert(m.params@.take(i + 1) =~= m.params@.take(i as int) + seq![
                    m.params@[i as int],
                ]);
                assert(seq![m.params@[i as int]].drop_first() =~= Seq::<Param>::empty());
                assert(params_refs(Seq::<Param>::empty()) =~= Seq::<Seq<char>>::empty());
                assert(params_refs(seq![m.params@[i as int]]) =~= opt_refs(
                    m.params@[i as int].type_ann,
                ));
                assert(refs_view(self.type_refs@) =~= pre + params_refs(m.params@.take(i + 1)));
            }
            i = i + 1;
        }
        proof {
            assert(m.params@.take(m.params@.len() as int) =~= m.params@);
        }
        self.visit_type_ann(&m.return_type);
    }

    /// Record every reference of a function declaration's signature.
    pub fn visit_fn_decl(&mut self, f: &FnNode)
        ensures
            refs_view(final(self).type_refs@) == refs_view(old(self).type_refs@) + fn_refs(*f),
    {
        let ghost pre = refs_view(self.type_refs@);
        let mut i: usize = 0;
        proof {
            assert(params_refs(f.params@.take(0)) =~= Seq::<Seq<char>>::empty());
            assert(refs_view(self.type_refs@) =~= pre + params_refs(f.params@.take(0)));
        }
        while i < f.params.len()
            invariant
                0 <= i <= f.params@.len(),
                refs_view(self.type_refs@) == pre + params_refs(f.params@.take(i as int)),
            decreases f.params@.len() - i,
        {
            self.visit_type_ann(&f.params[i].type_ann);
            proof {
                lemma_params_refs_append(f.params@.take(i as int), seq![f.params@[i as int]]);
                assert(f.params@.take(i + 1) =~= f.params@.take(i as int) + seq![
                    f.params@[i as int],
                ]);
                assert(seq![f.params@[i as int]].drop_first() =~= Seq::<Param>::empty());
                assert(params_refs(Seq::<Param>::empty()) =~= Seq::<Seq<char>>::empty());
                assert(params_refs(seq![f.params@[i as int]]) =~= opt_refs(
                    f.params@[i as int].type_ann,
                ));
                assert(refs_view(self.type_refs@) =~= pre + params_refs(f.params@.take(i + 1)));
            }
            i = i + 1;
        }
        proof {
            assert(f.params@.take(f.params@.len() as int) =~= f.params@);
        }
        self.visit_type_ann(&f.return_type);
    }
}

/// Reference gathering distributes over parameter-list concatenation.
pub proof fn lemma_params_refs_append(a: Seq<Param>, b: Seq<Param>)
    ensures
        params_refs(a + b) == params_refs(a) + params_refs(b),
    decreases a.len(),
{
    if a.len() == 0 {
        assert(a + b =~= b);
        assert(params_refs(a) + params_refs(b) =~= params_refs(b));
    } else {
        assert((a + b).drop_first() =~= a.drop_first() + b);
        lemma_params_refs_append(a.drop_first(), b);
        assert((a + b)[0] == a[0]);
        assert(opt_refs(a[0].type_ann) + (params_refs(a.drop_first()) + params_refs(b)) =~= (
        opt_refs(a[0].type_ann) + params_refs(a.drop_first())) + params_refs(b));
    }
}

/// One class method kept by the filter: the method node stripped of its
/// decorators, plus every type reference of its signature.
#[derive(Debug)]
pub struct ClassMethod {
    pub class_method: MethodNode,
    pub type_refs: Vec<TypeRef>,
}

/// One class property kept by the filter.
#[derive(Debug)]
pub struct ClassProp(pub PropNode);

/// One member of a filtered class.
#[derive(Debug)]
pub enum ClassMember {
    Method(ClassMethod),
    Prop(ClassProp),
}

/// One filtered class declaration: the class node with decorators and body
/// cleared, and its methods and properties kept separately.
#[derive(Debug)]
pub struct ClassDecl {
    pub class_decl: ClassNode,
    pub class_members: Vec<ClassMember>,
}

/// One filtered function declaration with the type references of its
/// signature.
#[derive(Debug)]
pub struct FnDecl {
    pub fn_decl: FnNode,
    pub type_refs: Vec<TypeRef>,
}

/// What the filter keeps of one class member.
pub open spec fn member_kept(src: ClassMemberNode, kept: ClassMember) -> bool {
    match src {
        ClassMemberNode::MethodMember(m) => match kept {
            ClassMember::Method(cm) => {
                &&& cm.class_method.name == m.name
                &&& cm.class_method.decorators@.len() == 0
                &&& cm.class_method.params == m.params
                &&& cm.class_method.return_type == m.return_type
                &&& cm.class_method.text == m.text
                &&& refs_view(cm.type_refs@) == method_refs(m)
            },
            _ => false,
        },
        ClassMemberNode::PropMember(p) => match kept {
            ClassMember::Prop(cp) => cp.0 == p,
            _ => false,
        },
        ClassMemberNode::OtherMember => false,
    }
}

/// The members the filter keeps: methods and properties, in order.
pub open spec fn kept_members(ms: Seq<ClassMemberNode>) -> Seq<ClassMemberNode>
    decreases ms.len(),
{
    if ms.len() == 0 {
        seq![]
    } else {
        let rest = kept_members(ms.drop_first());
        match ms[0] {
            ClassMemberNode::OtherMember => rest,
            _ => seq![ms[0]] + rest,
        }
    }
}

/// What the filter keeps of one class declaration.
pub open spec fn class_kept(src: ClassNode, kept: ClassDecl) -> bool {
    &&& kept.class_decl.name == src.name
    &&& kept.class_decl.decorators@.len() == 0
    &&& kept.class_decl.super_type_args == src.super_type_args
    &&& kept.class_decl.members@.len() == 0
    &&& kept.class_decl.text == src.text
    &&& kept.class_members@.len() == kept_members(src.members@).len()
    &&& forall|j: int|
        0 <= j < kept.class_members@.len() ==> member_kept(
            kept_members(src.members@)[j],
            #[trigger] kept.class_members@[j],
        )
}

/// Collects filtered class declarations.
#[derive(Debug)]
pub struct ClassDeclVisitor {
    pub class_decls: Vec<ClassDecl>,
}

impl ClassDeclVisitor {
    pub fn new() -> (r: Self)
        ensures
            r.class_decls@.len() == 0,
    {
        ClassDeclVisitor { class_decls: Vec::new() }
    }

    /// Keep one class: strip its decorators and body, keep its methods
    /// (without their decorators, with their type references gathered) and
    /// its properties.
    pub fn visit_class_decl(&mut self, n: ClassNode)
        ensures
            final(self).class_decls@.len() == old(self).class_decls@.len() + 1,
            final(self).class_decls@ == old(self).class_decls@.push(
                final(self).class_decls@.last(),
            ),
            class_kept(n, final(self).class_decls@.last()),
    {
        let ClassNode { name, decorators: _, super_type_args, members, text } = n;
        let ghost srcms = members@;
        let mut members = members;
        let nsrc: usize = members.len();
        let mut class_members: Vec<ClassMember> = Vec::new();
        let mut i: usize = 0;
        proof {
            assert(srcms.len() == nsrc as int);
            assert(kept_members(srcms.take(0)) =~= Seq::<ClassMemberNode>::empty());
            assert(members@ =~= srcms.skip(0));
        }
        while members.len() > 0
            invariant
                srcms.len() <= usize::MAX,
                0 <= i <= srcms.len(),
                members@.len() + i == srcms.len(),
                members@ == srcms.skip(i as int),
                class_members@.len() == kept_members(srcms.take(i as int)).len(),
                forall|j: int|
                    0 <= j < class_members@.len() ==> member_kept(
                        kept_members(srcms.take(i as int))[j],
                        #[trigger] class_members@[j],
                    ),
            decreases members@.len(),
        {
            let m = members.remove(0);
            proof {
                assert(members@ =~= srcms.skip(i + 1));
                assert(m == srcms[i as int]);
                assert(srcms.take(i + 1) =~= srcms.take(i as int).push(srcms[i as int]));
                lemma_kept_members_snoc(srcms.take(i as int), srcms[i as int]);
            }
            match m {
                ClassMemberNode::MethodMember(mm) => {
                    let MethodNode { name, decorators: _, params, return_type, text } = mm;
                    let stripped = MethodNode {
                        name,
                        decorators: Vec::new(),
                        params,
                        return_type,
                        text,
                    };
                    let mut v = TypeRefVisitor::new();
                    v.visit_class_method(&stripped);
                    proof {
                        assert(Seq::<Seq<char>>::empty() + method_refs(stripped) =~= method_refs(
                            stripped,
                        ));
                    }
                    class_members.push(
                        ClassMember::Method(
                            ClassMethod { class_method: stripped, type_refs: v.type_refs },
                        ),
                    );
                },
                ClassMemberNode::PropMember(p) => {
                    class_members.push(ClassMember::Prop(ClassProp(p)));
                },
                ClassMemberNode::OtherMember => {},
            }
            i = i + 1;
        }
        proof {
            assert(srcms.take(srcms.len() as int) =~= srcms);
        }
        let kept = ClassDecl {
            class_decl: ClassNode {
                name,
                decorators: Vec::new(),
                super_type_args,
                members: Vec::new(),
                text,
            },
            class_members,
        };
        self.class_decls.push(kept);
    }
}

/// Appending one member to the source list extends the kept list by that
/// member, unless it is skipped.
pub proof fn lemma_kept_members_snoc(ms: Seq<ClassMemberNode>, m: ClassMemberNode)
    ensures
        kept_members(ms.push(m)) == match m {
            ClassMemberNode::OtherMember => kept_members(ms),
            _ => kept_members(ms) + seq![m],
        },
    decreases ms.len(),
{
    if ms.len() == 0 {
        assert(ms =~= Seq::<ClassMemberNode>::empty());
        assert(ms.push(m).drop_first() =~= Seq::<ClassMemberNode>::empty());
        assert(ms.push(m)[0] == m);
        assert(seq![m] + Seq::<ClassMemberNode>::empty() =~= seq![m]);
        assert(Seq::<ClassMemberNode>::empty() + seq![m] =~= seq![m]);
        match m {
            ClassMemberNode::OtherMember => {
                assert(kept_members(ms.push(m)) =~= kept_members(ms));
            },
            _ => {
                assert(kept_members(ms.push(m)) =~= kept_members(ms) + seq![m]);
            },
        }
    } else {
        assert(ms.push(m).drop_first() =~= ms.drop_first().push(m));
        lemma_kept_members_snoc(ms.drop_first(), m);
        assert(ms.push(m)[0] == ms[0]);
        match m {
            ClassMemberNode::OtherMember => {
                assert(kept_members(ms.push(m)) =~= kept_members(ms));
            },
            _ => {
                match ms[0] {
                    ClassMemberNode::OtherMember => {
                        assert(kept_members(ms.push(m)) =~= kept_members(ms) + seq![m]);
                    },
                    _ => {
                        assert(seq![ms[0]] + (kept_members(ms.drop_first()) + seq![m]) =~= (seq![
                            ms[0],
                        ] + kept_members(ms.drop_first())) + seq![m]);
                        assert(kept_members(ms.push(m)) =~= kept_members(ms) + seq![m]);
                    },
                }
            },
        }
    }
}

/// What the filter keeps of one function declaration: the node itself plus
/// the type references of its signature.
pub open spec fn fn_kept(src: FnNode, kept: FnDecl) -> bool {
    &&& kept.fn_decl == src
    &&& refs_view(kept.type_refs@) == fn_refs(src)
}

/// Collects filtered function declarations.
#[derive(Debug)]
pub struct FnDeclVisitor {
    pub fn_decls: Vec<FnDecl>,
}

impl FnDeclVisitor {
    pub fn new() -> (r: Self)
        ensures
            r.fn_decls@.len() == 0,
    {
        FnDeclVisitor { fn_decls: Vec::new() }
    }

    /// Keep one function declaration with its gathered type references.
    pub fn visit_fn_decl(&mut self, n: FnNode)
        ensures
            final(self).fn_decls@.len() == old(self).fn_decls@.len() + 1,
            final(self).fn_decls@ == old(self).fn_decls@.push(final(self).fn_decls@.last()),
            fn_kept(n, final(self).fn_decls@.last()),
    {
        let mut v = TypeRefVisitor::new();
        v.visit_fn_decl(&n);
        proof {
            assert(Seq::<Seq<char>>::empty() + fn_refs(n) =~= fn_refs(n));
        }
        self.fn_decls.push(FnDecl { fn_decl: n, type_refs: v.type_refs });
    }
}

/// Where `id` is first declared in the catalog, or -1.
pub open spec fn alias_index(decls: Seq<TypeAliasDecl>, id: Seq<char>) -> int
    decreases decls.len(),
{
    if decls.len() == 0 {
        -1
    } else if decls[0].id@ == id {
        0
    } else {
        let r = alias_index(decls.drop_first(), id);
        if r < 0 {
            -1
        } else {
            r + 1
        }
    }
}

/// Recording a declaration: overwrite the existing entry for its identifier,
/// or append it (last declaration wins).
pub open spec fn record_alias_spec(decls: Seq<TypeAliasDecl>, d: TypeAliasDecl) -> Seq<
    TypeAliasDecl,
> {
    let i = alias_index(decls, d.id@);
    if i >= 0 {
        decls.update(i, d)
    } else {
        decls.push(d)
    }
}

proof fn lemma_alias_index_found(decls: Seq<TypeAliasDecl>, id: Seq<char>, i: int)
    requires
        0 <= i < decls.len(),
        forall|j: int| 0 <= j < i ==> (#[trigger] decls[j]).id@ != id,
        decls[i].id@ == id,
    ensures
        alias_index(decls, id) == i,
    decreases i,
{
    if i == 0 {
    } else {
        assert(decls.drop_first()[i - 1] == decls[i]);
        assert forall|j: int| 0 <= j < i - 1 implies (#[trigger] decls.drop_first()[j]).id@ != id by {
            assert(decls.drop_first()[j] == decls[j + 1]);
        }
        lemma_alias_index_found(decls.drop_first(), id, i - 1);
    }
}

proof fn lemma_alias_index_none(decls: Seq<TypeAliasDecl>, id: Seq<char>)
    requires
        forall|j: int| 0 <= j < decls.len() ==> (#[trigger] decls[j]).id@ != id,
    ensures
        alias_index(decls, id) == -1,
    decreases decls.len(),
{
    if decls.len() > 0 {
        assert forall|j: int| 0 <= j < decls.drop_first().len() implies (#[trigger] decls.drop_first()[j]).id@
            != id by {
            assert(decls.drop_first()[j] == decls[j + 1]);
        }
        lemma_alias_index_none(decls.drop_first(), id);
    }
}

/// Record one declaration into the catalog, overwriting any earlier
/// declaration of the same identifier.
pub fn record_alias(decls: &mut Vec<TypeAliasDecl>, d: TypeAliasDecl)
    ensures
        final(decls)@ == record_alias_spec(old(decls)@, d),
{
    let mut i: usize = 0;
    while i < decls.len()
        invariant
            decls@ == old(decls)@,
            0 <= i <= decls@.len(),
            forall|j: int| 0 <= j < i ==> (#[trigger] decls@[j]).id@ != d.id@,
        decreases decls@.len() - i,
    {
        if decls[i].id.eq(&d.id) {
            proof {
                lemma_alias_index_found(decls@, d.id@, i as int);
            }
            decls.set(i, d);
            return ;
        }
        i = i + 1;
    }
    proof {
        lemma_alias_index_none(decls@, d.id@);
    }
    decls.push(d);
}

/// Collects type-alias declarations, last declaration of an identifier
/// winning.
#[derive(Debug)]
pub struct TypeAliasVisitor {
    pub type_alias_decls: Vec<TypeAliasDecl>,
}

impl TypeAliasVisitor {
    pub fn new() -> (r: Self)
        ensures
            r.type_alias_decls@.len() == 0,
    {
        TypeAliasVisitor { type_alias_decls: Vec::new() }
    }

    /// Record one type-alias declaration.
    pub fn visit_ts_type_alias_decl(&mut self, n: TypeAliasDecl)
        ensures
            final(self).type_alias_decls@ == record_alias_spec(old(self).type_alias_decls@, n),
    {
        record_alias(&mut self.type_alias_decls, n);
    }
}

/// Which filters to run.
#[derive(Debug)]
pub struct FilterParams {
    pub enable_type_alias_decls: bool,
    pub enable_class_decls: bool,
    pub enable_fn_decls: bool,
}

impl Default for FilterParams {
    /// All filters enabled.
    fn default() -> (r: Self)
        ensures
            r.enable_type_alias_decls && r.enable_class_decls && r.enable_fn_decls,
    {
        FilterParams {
            enable_type_alias_decls: true,
            enable_class_decls: true,
            enable_fn_decls: true,
        }
    }
}

/// The catalog a module's items build up, last declaration winning.
pub open spec fn collect_aliases(items: Seq<ModuleItem>) -> Seq<TypeAliasDecl>
    decreases items.len(),
{
    if items.len() == 0 {
        seq![]
    } else {
        let prev = collect_aliases(items.drop_last());
        match items.last() {
            ModuleItem::TypeAliasItem(d) => record_alias_spec(prev, d),
            _ => prev,
        }
    }
}

/// The class declarations of a module, in order.
pub open spec fn class_items(items: Seq<ModuleItem>) -> Seq<ClassNode>
    decreases items.len(),
{
    if items.len() == 0 {
        seq![]
    } else {
        let prev = class_items(items.drop_last());
        match items.last() {
            ModuleItem::ClassItem(c) => prev.push(c),
            _ => prev,
        }
    }
}

/// The function declarations of a module, in order.
pub open spec fn fn_items(items: Seq<ModuleItem>) -> Seq<FnNode>
    decreases items.len(),
{
    if items.len() == 0 {
        seq![]
    } else {
        let prev = fn_items(items.drop_last());
        match items.last() {
            ModuleItem::FnItem(f) => prev.push(f),
            _ => prev,
        }
    }
}

/// What one pass of the filters keeps of a module.
#[derive(Debug)]
pub struct FilteredModule {
    pub type_alias_decls: Vec<TypeAliasDecl>,
    pub class_decls: Vec<ClassDecl>,
    pub fn_decls: Vec<FnDecl>,
}

impl FilteredModule {
    /// The transitive closure of the given type references through this
    /// module's type-alias catalog: every identifier a reference chain from
    /// one of `refs` leads to, each exactly once, the roots always included.
    pub fn find_closure_of_type_refs(&self, refs: &Vec<TypeRef>) -> (r: Vec<String>)
        ensures
            names_view(r@).no_duplicates(),
            names_view(r@).to_set() == closure_set(self.type_alias_decls@, refs_view(refs@)),
            forall|j: int|
                0 <= j < refs@.len() ==> names_view(r@).contains(#[trigger] refs_view(refs@)[j]),
    {
        let mut roots: Vec<String> = Vec::new();
        let mut i: usize = 0;
        proof {
            assert(names_view(roots@) =~= refs_view(refs@.take(0)));
        }
        while i < refs.len()
            invariant
                0 <= i <= refs@.len(),
                names_view(roots@) == refs_view(refs@.take(i as int)),
            decreases refs@.len() - i,
        {
            roots.push(refs[i].0.clone());
            proof {
                assert(names_view(roots@) =~= refs_view(refs@.take(i as int)).push(
                    refs@[i as int].0@,
                ));
                assert(refs_view(refs@.take(i + 1)) =~= refs_view(refs@.take(i as int)).push(
                    refs@[i as int].0@,
                ));
            }
            i = i + 1;
        }
        proof {
            assert(refs@.take(refs@.len() as int) =~= refs@);
        }
        find_closure(&self.type_alias_decls, &roots)
    }
}

/// Run the enabled filters over a module in one pass.
pub fn run_filters(params: FilterParams, module: Module) -> (r: FilteredModule)
    ensures
        r.type_alias_decls@ == if params.enable_type_alias_decls {
            collect_aliases(module.items@)
        } else {
            Seq::<TypeAliasDecl>::empty()
        },
        params.enable_class_decls ==> r.class_decls@.len() == class_items(module.items@).len()
            && (forall|k: int|
            0 <= k < r.class_decls@.len() ==> class_kept(
                class_items(module.items@)[k],
                #[trigger] r.class_decls@[k],
            )),
        !params.enable_class_decls ==> r.class_decls@.len() == 0,
        params.enable_fn_decls ==> r.fn_decls@.len() == fn_items(module.items@).len() && (forall|
            k: int,
        |
            0 <= k < r.fn_decls@.len() ==> fn_kept(
                fn_items(module.items@)[k],
                #[trigger] r.fn_decls@[k],
            )),
        !params.enable_fn_decls ==> r.fn_decls@.len() == 0,
{
    let ghost src = module.items@;
    let mut items = module.items;
    let nsrc: usize = items.len();
    let mut aliases = TypeAliasVisitor::new();
    let mut classes = ClassDeclVisitor::new();
    let mut fns = FnDeclVisitor::new();
    let mut i: usize = 0;
    proof {
        assert(src.len() == nsrc as int);
        assert(items@ =~= src.skip(0));
        assert(collect_aliases(src.take(0)) =~= Seq::<TypeAliasDecl>::empty());
        assert(class_items(src.take(0)) =~= Seq::<ClassNode>::empty());
        assert(fn_items(src.take(0)) =~= Seq::<FnNode>::empty());
    }
    while items.len() > 0
        invariant
            src.len() <= usize::MAX,
            0 <= i <= src.len(),
            items@.len() + i == src.len(),
            items@ == src.skip(i as int),
            aliases.type_alias_decls@ == if params.enable_type_alias_decls {
                collect_aliases(src.take(i as int))
            } else {
                Seq::<TypeAliasDecl>::empty()
            },
            params.enable_class_decls ==> classes.class_decls@.len() == class_items(
                src.take(i as int),
            ).len() && (forall|k: int|
                0 <= k < classes.class_decls@.len() ==> class_kept(
                    class_items(src.take(i as int))[k],
                    #[trigger] classes.class_decls@[k],
                )),
            !params.enable_class_decls ==> classes.class_decls@.len() == 0,
            params.enable_fn_decls ==> fns.fn_decls@.len() == fn_items(src.take(i as int)).len()
                && (forall|k: int|
                0 <= k < fns.fn_decls@.len() ==> fn_kept(
                    fn_items(src.take(i as int))[k],
                    #[trigger] fns.fn_decls@[k],
                )),
            !params.enable_fn_decls ==> fns.fn_decls@.len() == 0,
        decreases items@.len(),
    {
        let item = items.remove(0);
        proof {
            assert(items@ =~= src.skip(i + 1));
            assert(item == src[i as int]);
            assert(src.take(i + 1).drop_last() =~= src.take(i as int));
            assert(src.take(i + 1).last() == src[i as int]);
        }
        match item {
            ModuleItem::TypeAliasItem(d) => {
                if params.enable_type_alias_decls {
                    aliases.visit_ts_type_alias_decl(d);
                }
            },
            ModuleItem::ClassItem(c) => {
                if params.enable_class_decls {
                    classes.visit_class_decl(c);
                }
            },
            ModuleItem::FnItem(f) => {
                if params.enable_fn_decls {
                    fns.visit_fn_decl(f);
                }
            },
            ModuleItem::OtherItem => {},
        }
        i = i + 1;
    }
    proof {
        assert(src.take(src.len() as int) =~= src);
    }
    FilteredModule {
        type_alias_decls: aliases.type_alias_decls,
        class_decls: classes.class_decls,
        fn_decls: fns.fn_decls,
    }
}

} // verus!
