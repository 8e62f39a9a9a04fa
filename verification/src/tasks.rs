//! The prompt compiler: one pass over a parsed module that files a prompt
//! for every type-alias declaration, function declaration and class
//! declaration, and one scoped prompt per class method, each method and
//! function prompt carrying the identifiers of the type-alias prompts its
//! signature depends on.

use vstd::prelude::*;
use vstd::string::StringExecFns;
use crate::ast::{names_view, ClassMemberNode, ClassNode, FnNode, MethodNode, Module, TypeAliasDecl};
use crate::closure::closure_set;
use crate::filter::{
    class_items, class_kept, collect_aliases, fn_items, fn_kept, fn_refs, kept_members,
    member_kept, method_refs, run_filters, ClassMember, FilterParams,
};
use crate::prompts::{
    default_prompt_model, prompts_view, InvalidPromptError, PromptAstType, PromptModel,
    PromptType, PromptsWriter,
};

verus! {

/// The prompt filed for one type-alias declaration.
pub open spec fn alias_prompt(d: TypeAliasDecl) -> PromptModel {
    PromptModel {
        ty: PromptType::TypeScript,
        fmt: d.text@,
        id: d.id@,
        ast_ty: Some(PromptAstType::TypeAliasDecl),
        context: Seq::<Seq<char>>::empty(),
    }
}

/// The prompt filed for one class declaration (its stripped text; its
/// methods are filed separately under its scope).
pub open spec fn class_prompt(c: ClassNode) -> PromptModel {
    PromptModel {
        ty: PromptType::TypeScript,
        fmt: c.text@,
        id: c.name@,
        ast_ty: Some(PromptAstType::ClassDecl),
        context: Seq::<Seq<char>>::empty(),
    }
}

/// The context identifier pointing at a type-alias prompt.
pub open spec fn context_id_of(x: Seq<char>) -> Seq<char> {
    "type_alias_decl."@ + x
}

/// A context list stands for a closure set: every entry points at a member
/// of the set, and every member of the set is pointed at.
pub open spec fn context_entry_ok(ctx: Seq<Seq<char>>, cl: Set<Seq<char>>, j: int) -> bool {
    exists|x: Seq<char>| cl.contains(x) && ctx[j] == #[trigger] context_id_of(x)
}

pub open spec fn context_matches(ctx: Seq<Seq<char>>, cl: Set<Seq<char>>) -> bool {
    &&& forall|j: int| 0 <= j < ctx.len() ==> #[trigger] context_entry_ok(ctx, cl, j)
    &&& forall|x: Seq<char>| cl.contains(x) ==> ctx.contains(#[trigger] context_id_of(x))
}

/// What the prompt of one function declaration must hold, against the
/// module's catalog.
pub open spec fn fn_prompt_matches(
    aliases: Seq<TypeAliasDecl>,
    f: FnNode,
    p: PromptModel,
) -> bool {
    &&& p.ty == PromptType::TypeScript
    &&& p.ast_ty == Some(PromptAstType::FnDecl)
    &&& p.id == f.name@
    &&& p.fmt == f.text@
    &&& context_matches(p.context, closure_set(aliases, fn_refs(f)))
}

/// What the prompt of one class method must hold: filed under the class's
/// scope, with the context of its signature's closure.
pub open spec fn method_prompt_matches(
    aliases: Seq<TypeAliasDecl>,
    class_name: Seq<char>,
    m: MethodNode,
    p: PromptModel,
) -> bool {
    &&& p.ty == PromptType::TypeScript
    &&& p.ast_ty == Some(PromptAstType::MethodDecl)
    &&& m.name is Some
    &&& p.id == class_name + "."@ + m.name->0@
    &&& p.fmt == m.text@
    &&& context_matches(p.context, closure_set(aliases, method_refs(m)))
}

/// The methods of a class body that get a prompt: those with an identifier
/// name, in order.
pub open spec fn named_methods(ms: Seq<ClassMemberNode>) -> Seq<MethodNode>
    decreases ms.len(),
{
    if ms.len() == 0 {
        seq![]
    } else {
        let rest = named_methods(ms.drop_first());
        match ms[0] {
            ClassMemberNode::MethodMember(m) => if m.name is Some {
                seq![m] + rest
            } else {
                rest
            },
            _ => rest,
        }
    }
}

/// The same filtering over a filtered class's kept members.
pub open spec fn named_kept(ms: Seq<ClassMember>) -> Seq<MethodNode>
    decreases ms.len(),
{
    if ms.len() == 0 {
        seq![]
    } else {
        let rest = named_kept(ms.drop_first());
        match ms[0] {
            ClassMember::Method(cm) => if cm.class_method.name is Some {
                seq![cm.class_method] + rest
            } else {
                rest
            },
            _ => rest,
        }
    }
}

/// Everything a method prompt reads off a method node.
pub open spec fn method_like(a: MethodNode, b: MethodNode) -> bool {
    &&& b.name == a.name
    &&& b.text == a.text
    &&& b.params == a.params
    &&& b.return_type == a.return_type
}

/// The kept members of a filtered class carry the same named methods as
/// the source class body, up to stripped decorators.
proof fn lemma_named_correspond(srcms: Seq<ClassMemberNode>, kept: Seq<ClassMember>)
    requires
        kept.len() == kept_members(srcms).len(),
        forall|j: int| 0 <= j < kept.len() ==> member_kept(kept_members(srcms)[j], #[trigger] kept[j]),
    ensures
        named_kept(kept).len() == named_methods(srcms).len(),
        forall|j: int|
            0 <= j < named_kept(kept).len() ==> method_like(
                named_methods(srcms)[j],
                #[trigger] named_kept(kept)[j],
            ),
    decreases srcms.len(),
{
    if srcms.len() == 0 {
    } else {
        match srcms[0] {
            ClassMemberNode::OtherMember => {
                lemma_named_correspond(srcms.drop_first(), kept);
            },
            _ => {
                assert(kept_members(srcms) == seq![srcms[0]] + kept_members(srcms.drop_first()));
                assert(kept_members(srcms)[0] == srcms[0]);
                assert(kept.len() >= 1);
                assert(member_kept(srcms[0], kept[0]));
                assert forall|j: int|
                    0 <= j < kept.drop_first().len() implies member_kept(
                    kept_members(srcms.drop_first())[j],
                    #[trigger] kept.drop_first()[j],
                ) by {
                    assert(kept.drop_first()[j] == kept[j + 1]);
                    assert(kept_members(srcms)[j + 1] == kept_members(srcms.drop_first())[j]);
                }
                lemma_named_correspond(srcms.drop_first(), kept.drop_first());
                match srcms[0] {
                    ClassMemberNode::MethodMember(m) => {
                        let cm = kept[0]->Method_0;
                        if m.name is Some {
                            assert(named_methods(srcms) == seq![m] + named_methods(
                                srcms.drop_first(),
                            ));
                            assert(named_kept(kept) == seq![cm.class_method] + named_kept(
                                kept.drop_first(),
                            ));
                            assert forall|j: int|
                                0 <= j < named_kept(kept).len() implies method_like(
                                named_methods(srcms)[j],
                                #[trigger] named_kept(kept)[j],
                            ) by {
                                if j == 0 {
                                    assert(named_kept(kept)[0] == cm.class_method);
                                    assert(named_methods(srcms)[0] == m);
                                } else {
                                    assert(named_kept(kept)[j] == named_kept(kept.drop_first())[j
                                        - 1]);
                                    assert(named_methods(srcms)[j] == named_methods(
                                        srcms.drop_first(),
                                    )[j - 1]);
                                }
                            }
                        } else {
                            assert(named_methods(srcms) == named_methods(srcms.drop_first()));
                            assert(named_kept(kept) == named_kept(kept.drop_first()));
                        }
                    },
                    ClassMemberNode::PropMember(_) => {
                        assert(named_methods(srcms) == named_methods(srcms.drop_first()));
                        assert(named_kept(kept) == named_kept(kept.drop_first()));
                    },
                    ClassMemberNode::OtherMember => {},
                }
            },
        }
    }
}

/// How many prompts the class section of a module files.
pub open spec fn class_section_len(cs: Seq<ClassNode>) -> int
    decreases cs.len(),
{
    if cs.len() == 0 {
        0
    } else {
        1 + named_methods(cs[0].members@).len() + class_section_len(cs.drop_first())
    }
}

/// The class blocks of the prompt list: per class, its own prompt and then
/// one prompt per named method, in order.
pub open spec fn class_blocks_match(
    aliases: Seq<TypeAliasDecl>,
    cs: Seq<ClassNode>,
    ps: Seq<PromptModel>,
) -> bool
    decreases cs.len(),
{
    if cs.len() == 0 {
        ps.len() == 0
    } else {
        let n = 1 + named_methods(cs[0].members@).len() as int;
        &&& ps.len() >= n
        &&& ps[0] == class_prompt(cs[0])
        &&& forall|j: int|
            0 <= j < n - 1 ==> method_prompt_matches(
                aliases,
                cs[0].name@,
                named_methods(cs[0].members@)[j],
                #[trigger] ps[1 + j],
            )
        &&& class_blocks_match(aliases, cs.drop_first(), ps.skip(n))
    }
}

/// When the whole pass succeeds: no declaration it files a prompt for has
/// an empty identifier.
pub open spec fn no_empty_ids(items: Seq<crate::ast::ModuleItem>) -> bool {
    &&& forall|k: int|
        0 <= k < collect_aliases(items).len() ==> (#[trigger] collect_aliases(items)[k]).id@.len()
            > 0
    &&& forall|k: int|
        0 <= k < fn_items(items).len() ==> (#[trigger] fn_items(items)[k]).name@.len() > 0
    &&& forall|k: int|
        0 <= k < class_items(items).len() ==> (#[trigger] class_items(items)[k]).name@.len() > 0
    &&& forall|k: int, j: int|
        0 <= k < class_items(items).len() && 0 <= j < named_methods(
            (#[trigger] class_items(items)[k]).members@,
        ).len() ==> (#[trigger] named_methods(class_items(items)[k].members@)[j]).name->0@.len() > 0
}

/// Build the context identifiers of a closure: one `type_alias_decl.`-
/// prefixed identifier per closure member.
fn context_ids(closure: &Vec<String>) -> (r: Vec<String>)
    ensures
        names_view(r@).len() == names_view(closure@).len(),
        forall|j: int|
            0 <= j < names_view(r@).len() ==> #[trigger] names_view(r@)[j] == context_id_of(
                names_view(closure@)[j],
            ),
{
    let mut out: Vec<String> = Vec::new();
    let mut i: usize = 0;
    while i < closure.len()
        invariant
            0 <= i <= closure@.len(),
            names_view(out@).len() == i,
            forall|j: int|
                0 <= j < i ==> #[trigger] names_view(out@)[j] == context_id_of(
                    names_view(closure@)[j],
                ),
        decreases closure@.len() - i,
    {
        let mut s = String::from_str("type_alias_decl.");
        s.append(closure[i].as_str());
        let ghost sv = s@;
        let ghost pre = names_view(out@);
        out.push(s);
        proof {
            assert(names_view(out@) =~= pre.push(sv));
            assert(sv == context_id_of(names_view(closure@)[i as int]));
        }
        i = i + 1;
    }
    out
}

/// A freshly built context made of closure identifiers stands for the
/// closure set.
proof fn lemma_context_matches(ctx: Seq<Seq<char>>, names: Seq<Seq<char>>, cl: Set<Seq<char>>)
    requires
        names.to_set() == cl,
        ctx.len() == names.len(),
        forall|j: int| 0 <= j < ctx.len() ==> #[trigger] ctx[j] == context_id_of(names[j]),
    ensures
        context_matches(ctx, cl),
{
    assert forall|j: int| 0 <= j < ctx.len() implies #[trigger] context_entry_ok(ctx, cl, j) by {
        let x = names[j];
        assert(names.contains(x));
        assert(names.to_set().contains(x));
        assert(cl.contains(x) && ctx[j] == context_id_of(x));
    }
    assert forall|x: Seq<char>| cl.contains(x) implies ctx.contains(#[trigger] context_id_of(x)) by {
        assert(names.to_set().contains(x));
        assert(names.contains(x));
        let j = choose|j: int| 0 <= j < names.len() && names[j] == x;
        assert(ctx[j] == context_id_of(x));
    }
}

/// Named-method filtering distributes over concatenation.
proof fn lemma_named_kept_append(a: Seq<ClassMember>, b: Seq<ClassMember>)
    ensures
        named_kept(a + b) == named_kept(a) + named_kept(b),
    decreases a.len(),
{
    if a.len() == 0 {
        assert(a + b =~= b);
        assert(named_kept(a) + named_kept(b) =~= named_kept(b));
    } else {
        assert((a + b).drop_first() =~= a.drop_first() + b);
        lemma_named_kept_append(a.drop_first(), b);
        assert((a + b)[0] == a[0]);
        match a[0] {
            ClassMember::Method(cm) => {
                if cm.class_method.name is Some {
                    assert(seq![cm.class_method] + (named_kept(a.drop_first()) + named_kept(b))
                        =~= (seq![cm.class_method] + named_kept(a.drop_first())) + named_kept(b));
                }
            },
            _ => {},
        }
    }
}

/// A matching class block extends a matching block list.
proof fn lemma_class_blocks_snoc(
    aliases: Seq<TypeAliasDecl>,
    cs: Seq<ClassNode>,
    ps: Seq<PromptModel>,
    c: ClassNode,
    qs: Seq<PromptModel>,
)
    requires
        class_blocks_match(aliases, cs, ps),
        qs.len() == 1 + named_methods(c.members@).len(),
        qs[0] == class_prompt(c),
        forall|j: int|
            0 <= j < named_methods(c.members@).len() ==> method_prompt_matches(
                aliases,
                c.name@,
                named_methods(c.members@)[j],
                #[trigger] qs[1 + j],
            ),
    ensures
        class_blocks_match(aliases, cs.push(c), ps + qs),
    decreases cs.len(),
{
    if cs.len() == 0 {
        assert(ps.len() == 0);
        assert(ps + qs =~= qs);
        let full = cs.push(c);
        assert(full[0] == c);
        assert(full.drop_first() =~= Seq::<ClassNode>::empty());
        let n = 1 + named_methods(c.members@).len() as int;
        assert(qs.skip(n) =~= Seq::<PromptModel>::empty());
        assert(class_blocks_match(aliases, full.drop_first(), qs.skip(n)));
    } else {
        let n0 = 1 + named_methods(cs[0].members@).len() as int;
        assert(cs.push(c)[0] == cs[0]);
        assert(cs.push(c).drop_first() =~= cs.drop_first().push(c));
        assert((ps + qs).skip(n0) =~= ps.skip(n0) + qs);
        lemma_class_blocks_snoc(aliases, cs.drop_first(), ps.skip(n0), c, qs);
        assert((ps + qs)[0] == ps[0]);
        assert forall|j: int|
            0 <= j < n0 - 1 implies method_prompt_matches(
            aliases,
            cs.push(c)[0].name@,
            named_methods(cs.push(c)[0].members@)[j],
            #[trigger] (ps + qs)[1 + j],
        ) by {
            assert((ps + qs)[1 + j] == ps[1 + j]);
        }
    }
}

/// A matching block list has exactly the section's length.
proof fn lemma_class_blocks_len(
    aliases: Seq<TypeAliasDecl>,
    cs: Seq<ClassNode>,
    ps: Seq<PromptModel>,
)
    requires
        class_blocks_match(aliases, cs, ps),
    ensures
        ps.len() == class_section_len(cs),
    decreases cs.len(),
{
    if cs.len() == 0 {
    } else {
        let n = 1 + named_methods(cs[0].members@).len() as int;
        lemma_class_blocks_len(aliases, cs.drop_first(), ps.skip(n));
    }
}

/// The class section grows by one block per class.
proof fn lemma_class_section_len_snoc(cs: Seq<ClassNode>, c: ClassNode)
    ensures
        class_section_len(cs.push(c)) == class_section_len(cs) + 1 + named_methods(
            c.members@,
        ).len(),
    decreases cs.len(),
{
    if cs.len() == 0 {
        assert(cs =~= Seq::<ClassNode>::empty());
        assert(class_section_len(Seq::<ClassNode>::empty()) == 0);
        assert(cs.push(c).drop_first() =~= Seq::<ClassNode>::empty());
        assert(cs.push(c)[0] == c);
    } else {
        assert(cs.push(c)[0] == cs[0]);
        assert(cs.push(c).drop_first() =~= cs.drop_first().push(c));
        lemma_class_section_len_snoc(cs.drop_first(), c);
    }
}

/// Compile the prompts of one module, filing them into the writer: one
/// prompt per type-alias declaration, one per function declaration (with
/// the context of its signature's type closure), one per class, and one
/// per named class method, scoped under the class and likewise carrying
/// its closure context.
///
/// The pass succeeds exactly when every declaration it files has a
/// non-empty identifier; an empty identifier stops it with the error the
/// writer reported.
#[verifier::rlimit(90)]
pub fn compile_prompts_for_module(module: Module, prompt_writer: &mut PromptsWriter) -> (r:
    Result<(), InvalidPromptError>)
    requires
        old(prompt_writer).scope@.len() == 0,
        !old(prompt_writer).modified,
        old(prompt_writer).builder.model() == default_prompt_model(),
    ensures
        r is Ok <==> no_empty_ids(module.items@),
        r is Ok ==> ({
            let base = prompts_view(old(prompt_writer).buf@);
            let aliases = collect_aliases(module.items@);
            let fns = fn_items(module.items@);
            let classes = class_items(module.items@);
            let view = prompts_view(final(prompt_writer).buf@);
            let added = view.skip(base.len() as int);
            &&& view.len() == base.len() + aliases.len() + fns.len() + class_section_len(classes)
            &&& view.take(base.len() as int) == base
            &&& forall|k: int|
                0 <= k < aliases.len() ==> #[trigger] added[k] == alias_prompt(aliases[k])
            &&& forall|k: int|
                0 <= k < fns.len() ==> fn_prompt_matches(
                    aliases,
                    fns[k],
                    #[trigger] added[aliases.len() + k],
                )
            &&& class_blocks_match(
                aliases,
                classes,
                added.skip(aliases.len() + fns.len() as int),
            )
            &&& final(prompt_writer).scope@.len() == 0
            &&& !final(prompt_writer).modified
            &&& final(prompt_writer).builder.model() == default_prompt_model()
        }),
{
    let ghost items = module.items@;
    let ghost base = prompts_view(prompt_writer.buf@);
    let filtered = run_filters(FilterParams::default(), module);
    let ghost aliases = collect_aliases(items);
    let ghost fns = fn_items(items);
    let ghost classes = class_items(items);
    proof {
        assert(filtered.type_alias_decls@ == aliases);
    }
    // one prompt per type-alias declaration
    let mut i: usize = 0;
    while i < filtered.type_alias_decls.len()
        invariant
            items == module.items@,
            aliases == collect_aliases(items),
            filtered.type_alias_decls@ == aliases,
            base == prompts_view(old(prompt_writer).buf@),
            0 <= i <= aliases.len(),
            prompt_writer.scope@.len() == 0,
            !prompt_writer.modified,
            prompt_writer.builder.model() == default_prompt_model(),
            prompts_view(prompt_writer.buf@).len() == base.len() + i,
            prompts_view(prompt_writer.buf@).take(base.len() as int) == base,
            forall|k: int|
                0 <= k < i ==> #[trigger] prompts_view(prompt_writer.buf@)[base.len() + k]
                    == alias_prompt(aliases[k]),
            forall|k: int| 0 <= k < i ==> (#[trigger] aliases[k]).id@.len() > 0,
        decreases aliases.len() - i,
    {
        let d = &filtered.type_alias_decls[i];
        prompt_writer.set_type(PromptType::TypeScript);
        prompt_writer.set_ast_ty(PromptAstType::TypeAliasDecl);
        prompt_writer.set_id(d.id.as_str());
        match prompt_writer.set_fmt(d.text.as_str()) {
            Ok(()) => {},
            Err(e) => {
                return Err(e);
            },
        }
        let ghost viewpre = prompts_view(prompt_writer.buf@);
        match prompt_writer.push() {
            Ok(()) => {},
            Err(e) => {
                proof {
                    assert(collect_aliases(module.items@)[i as int].id@.len() == 0);
                }
                return Err(e);
            },
        }
        proof {
            assert(prompts_view(prompt_writer.buf@) =~= viewpre.push(alias_prompt(
                aliases[i as int],
            )));
            assert(prompts_view(prompt_writer.buf@).take(base.len() as int) =~= viewpre.take(
                base.len() as int,
            ));
        }
        i = i + 1;
    }
    // one prompt per function declaration, with its closure context
    let mut j: usize = 0;
    while j < filtered.fn_decls.len()
        invariant
            items == module.items@,
            aliases == collect_aliases(items),
            fns == fn_items(items),
            filtered.type_alias_decls@ == aliases,
            base == prompts_view(old(prompt_writer).buf@),
            filtered.fn_decls@.len() == fns.len(),
            forall|k: int|
                0 <= k < fns.len() ==> fn_kept(fns[k], #[trigger] filtered.fn_decls@[k]),
            0 <= j <= fns.len(),
            prompt_writer.scope@.len() == 0,
            !prompt_writer.modified,
            prompt_writer.builder.model() == default_prompt_model(),
            prompts_view(prompt_writer.buf@).len() == base.len() + aliases.len() + j,
            prompts_view(prompt_writer.buf@).take(base.len() as int) == base,
            forall|k: int|
                0 <= k < aliases.len() ==> #[trigger] prompts_view(prompt_writer.buf@)[base.len()
                    + k] == alias_prompt(aliases[k]),
            forall|k: int| 0 <= k < aliases.len() ==> (#[trigger] aliases[k]).id@.len() > 0,
            forall|k: int|
                0 <= k < j ==> fn_prompt_matches(
                    aliases,
                    fns[k],
                    #[trigger] prompts_view(prompt_writer.buf@)[base.len() + aliases.len() + k],
                ),
            forall|k: int| 0 <= k < j ==> (#[trigger] fns[k]).name@.len() > 0,
        decreases fns.len() - j,
    {
        let f = &filtered.fn_decls[j];
        prompt_writer.set_type(PromptType::TypeScript);
        prompt_writer.set_ast_ty(PromptAstType::FnDecl);
        prompt_writer.set_id(f.fn_decl.name.as_str());
        match prompt_writer.set_fmt(f.fn_decl.text.as_str()) {
            Ok(()) => {},
            Err(e) => {
                return Err(e);
            },
        }
        let closure = filtered.find_closure_of_type_refs(&f.type_refs);
        let ctx = context_ids(&closure);
        match prompt_writer.add_to_context(&ctx) {
            Ok(()) => {},
            Err(e) => {
                return Err(e);
            },
        }
        let ghost viewpre = prompts_view(prompt_writer.buf@);
        match prompt_writer.push() {
            Ok(()) => {},
            Err(e) => {
                proof {
                    assert(fn_kept(fns[j as int], filtered.fn_decls@[j as int]));
                    assert(fn_items(module.items@)[j as int].name@.len() == 0);
                }
                return Err(e);
            },
        }
        proof {
            assert(Seq::<Seq<char>>::empty() + names_view(ctx@) =~= names_view(ctx@));
            assert(fn_kept(fns[j as int], filtered.fn_decls@[j as int]));
            lemma_context_matches(
                names_view(ctx@),
                names_view(closure@),
                closure_set(aliases, fn_refs(fns[j as int])),
            );
            let p = PromptModel {
                ty: PromptType::TypeScript,
                fmt: fns[j as int].text@,
                id: fns[j as int].name@,
                ast_ty: Some(PromptAstType::FnDecl),
                context: names_view(ctx@),
            };
            assert(fn_prompt_matches(aliases, fns[j as int], p));
            assert(prompts_view(prompt_writer.buf@) =~= viewpre.push(p));
            assert(prompts_view(prompt_writer.buf@).take(base.len() as int) =~= viewpre.take(
                base.len() as int,
            ));
        }
        j = j + 1;
    }
    // one prompt per class, and one per named method under its scope
    let ghost nanf = base.len() + aliases.len() + fns.len();
    let mut ci: usize = 0;
    while ci < filtered.class_decls.len()
        invariant
            items == module.items@,
            aliases == collect_aliases(items),
            fns == fn_items(items),
            classes == class_items(items),
            filtered.type_alias_decls@ == aliases,
            base == prompts_view(old(prompt_writer).buf@),
            nanf == base.len() + aliases.len() + fns.len(),
            filtered.class_decls@.len() == classes.len(),
            forall|k: int|
                0 <= k < classes.len() ==> class_kept(classes[k], #[trigger] filtered.class_decls@[k]),
            0 <= ci <= classes.len(),
            prompt_writer.scope@.len() == 0,
            !prompt_writer.modified,
            prompt_writer.builder.model() == default_prompt_model(),
            nanf <= prompts_view(prompt_writer.buf@).len(),
            prompts_view(prompt_writer.buf@).len() == nanf + class_section_len(
                classes.take(ci as int),
            ),
            prompts_view(prompt_writer.buf@).take(base.len() as int) == base,
            forall|k: int|
                0 <= k < aliases.len() ==> #[trigger] prompts_view(prompt_writer.buf@)[base.len()
                    + k] == alias_prompt(aliases[k]),
            forall|k: int| 0 <= k < aliases.len() ==> (#[trigger] aliases[k]).id@.len() > 0,
            forall|k: int|
                0 <= k < fns.len() ==> fn_prompt_matches(
                    aliases,
                    fns[k],
                    #[trigger] prompts_view(prompt_writer.buf@)[base.len() + aliases.len() + k],
                ),
            forall|k: int| 0 <= k < fns.len() ==> (#[trigger] fns[k]).name@.len() > 0,
            class_blocks_match(
                aliases,
                classes.take(ci as int),
                prompts_view(prompt_writer.buf@).skip(nanf as int),
            ),
            forall|k: int| 0 <= k < ci ==> (#[trigger] classes[k]).name@.len() > 0,
            forall|k: int, jj: int|
                0 <= k < ci && 0 <= jj < named_methods((#[trigger] classes[k]).members@).len()
                    ==> (#[trigger] named_methods(classes[k].members@)[jj]).name->0@.len() > 0,
        decreases classes.len() - ci,
    {
        let cd = &filtered.class_decls[ci];
        let ghost c = classes[ci as int];
        proof {
            assert(class_kept(c, *cd));
            lemma_named_correspond(c.members@, cd.class_members@);
        }
        prompt_writer.set_type(PromptType::TypeScript);
        prompt_writer.set_ast_ty(PromptAstType::ClassDecl);
        prompt_writer.set_id(cd.class_decl.name.as_str());
        match prompt_writer.set_fmt(cd.class_decl.text.as_str()) {
            Ok(()) => {},
            Err(e) => {
                return Err(e);
            },
        }
        let ghost blockstart = prompts_view(prompt_writer.buf@).len() as int;
        let ghost viewpre = prompts_view(prompt_writer.buf@);
        match prompt_writer.push() {
            Ok(()) => {},
            Err(e) => {
                proof {
                    assert(class_items(module.items@)[ci as int].name@.len() == 0);
                }
                return Err(e);
            },
        }
        proof {
            assert(prompts_view(prompt_writer.buf@) =~= viewpre.push(class_prompt(c)));
        }
        prompt_writer.enter_scope(cd.class_decl.name.as_str());
        // facts about the frozen prefix survive the method loop below
        let ghost prefix = prompts_view(prompt_writer.buf@);
        let mut mi: usize = 0;
        proof {
            assert(cd.class_members@.take(0) =~= Seq::<ClassMember>::empty());
            assert(named_kept(Seq::<ClassMember>::empty()) =~= Seq::<MethodNode>::empty());
            assert(prefix.take(blockstart + 1) =~= prefix);
        }
        while mi < cd.class_members.len()
            invariant
                items == module.items@,
                classes == class_items(items),
                aliases == collect_aliases(items),
                filtered.type_alias_decls@ == aliases,
                0 <= ci < classes.len(),
                c == classes[ci as int],
                class_kept(c, *cd),
                named_kept(cd.class_members@).len() == named_methods(c.members@).len(),
                forall|k: int|
                    0 <= k < named_kept(cd.class_members@).len() ==> method_like(
                        named_methods(c.members@)[k],
                        #[trigger] named_kept(cd.class_members@)[k],
                    ),
                0 <= mi <= cd.class_members@.len(),
                names_view(prompt_writer.scope@) == seq![c.name@],
                prompt_writer.scope@.len() == 1,
                !prompt_writer.modified,
                prompt_writer.builder.model() == default_prompt_model(),
                0 <= blockstart,
                prefix.len() == blockstart + 1,
                prompts_view(prompt_writer.buf@).len() == blockstart + 1 + named_kept(
                    cd.class_members@.take(mi as int),
                ).len(),
                prompts_view(prompt_writer.buf@).take(blockstart + 1) == prefix,
                forall|k: int|
                    0 <= k < named_kept(cd.class_members@.take(mi as int)).len()
                        ==> method_prompt_matches(
                        aliases,
                        c.name@,
                        named_kept(cd.class_members@.take(mi as int))[k],
                        #[trigger] prompts_view(prompt_writer.buf@)[blockstart + 1 + k],
                    ),
                forall|k: int|
                    0 <= k < named_kept(cd.class_members@.take(mi as int)).len() ==> (
                    #[trigger] named_kept(cd.class_members@.take(mi as int))[k]).name->0@.len()
                        > 0,
            decreases cd.class_members@.len() - mi,
        {
            proof {
                assert(cd.class_members@.take(mi + 1) =~= cd.class_members@.take(mi as int).push(
                    cd.class_members@[mi as int],
                ));
                lemma_named_kept_append(
                    cd.class_members@.take(mi as int),
                    seq![cd.class_members@[mi as int]],
                );
                assert(cd.class_members@.take(mi as int) + seq![cd.class_members@[mi as int]]
                    =~= cd.class_members@.take(mi + 1));
                assert(seq![cd.class_members@[mi as int]].drop_first() =~= Seq::<
                    ClassMember,
                >::empty());
                assert(named_kept(Seq::<ClassMember>::empty()) =~= Seq::<MethodNode>::empty());
            }
            match &cd.class_members[mi] {
                ClassMember::Method(cm) => {
                    match &cm.class_method.name {
                        Some(nm) => {
                            proof {
                                assert(named_kept(seq![cd.class_members@[mi as int]])
                                    =~= seq![cm.class_method] + Seq::<MethodNode>::empty());
                                assert(seq![cm.class_method] + Seq::<MethodNode>::empty()
                                    =~= seq![cm.class_method]);
                                assert(named_kept(cd.class_members@.take(mi + 1)) =~= named_kept(
                                    cd.class_members@.take(mi as int),
                                ).push(cm.class_method));
                            }
                            prompt_writer.set_type(PromptType::TypeScript);
                            prompt_writer.set_ast_ty(PromptAstType::MethodDecl);
                            prompt_writer.set_id(nm.as_str());
                            match prompt_writer.set_fmt(cm.class_method.text.as_str()) {
                                Ok(()) => {},
                                Err(e) => {
                                    return Err(e);
                                },
                            }
                            let closure = filtered.find_closure_of_type_refs(&cm.type_refs);
                            let ctx = context_ids(&closure);
                            match prompt_writer.add_to_context(&ctx) {
                                Ok(()) => {},
                                Err(e) => {
                                    return Err(e);
                                },
                            }
                            let ghost viewpre2 = prompts_view(prompt_writer.buf@);
                            let ghost nidx = named_kept(
                                cd.class_members@.take(mi as int),
                            ).len() as int;
                            match prompt_writer.push() {
                                Ok(()) => {},
                                Err(e) => {
                                    proof {
                                        assert(nm@.len() == 0);
                                        lemma_named_kept_append(
                                            cd.class_members@.take(mi + 1),
                                            cd.class_members@.skip(mi + 1),
                                        );
                                        assert(cd.class_members@.take(mi + 1)
                                            + cd.class_members@.skip(mi + 1)
                                            =~= cd.class_members@);
                                        assert(named_kept(cd.class_members@)[nidx]
                                            == cm.class_method);
                                        assert(method_like(
                                            named_methods(c.members@)[nidx],
                                            cm.class_method,
                                        ));
                                        assert(named_methods(
                                            class_items(module.items@)[ci as int].members@,
                                        )[nidx].name->0@.len() == 0);
                                    }
                                    return Err(e);
                                },
                            }
                            proof {
                                assert(Seq::<Seq<char>>::empty() + names_view(ctx@) =~= names_view(
                                    ctx@,
                                ));
                                assert(member_kept(
                                    kept_members(c.members@)[mi as int],
                                    cd.class_members@[mi as int],
                                ));
                                let src_m = kept_members(c.members@)[mi as int]->MethodMember_0;
                                assert(crate::filter::refs_view(cm.type_refs@) == method_refs(
                                    src_m,
                                ));
                                assert(method_refs(cm.class_method) == method_refs(src_m));
                                lemma_context_matches(
                                    names_view(ctx@),
                                    names_view(closure@),
                                    closure_set(aliases, method_refs(cm.class_method)),
                                );
                                assert(seq![c.name@].drop_first() =~= Seq::<Seq<char>>::empty());
                                assert(crate::prompts::scope_join_rest(
                                    Seq::<Seq<char>>::empty(),
                                ) =~= Seq::<char>::empty());
                                assert(c.name@ + Seq::<char>::empty() =~= c.name@);
                                assert(crate::prompts::scope_join(seq![c.name@]) == c.name@);
                                let p = PromptModel {
                                    ty: PromptType::TypeScript,
                                    fmt: cm.class_method.text@,
                                    id: c.name@ + "."@ + nm@,
                                    ast_ty: Some(PromptAstType::MethodDecl),
                                    context: names_view(ctx@),
                                };
                                assert(crate::prompts::scoped_id(seq![c.name@], nm@) == c.name@
                                    + "."@ + nm@);
                                assert(method_prompt_matches(
                                    aliases,
                                    c.name@,
                                    cm.class_method,
                                    p,
                                ));
                                assert(prompts_view(prompt_writer.buf@) =~= viewpre2.push(p));
                                assert(prompts_view(prompt_writer.buf@).take(blockstart + 1)
                                    =~= viewpre2.take(blockstart + 1));
                            }
                        },
                        None => {
                            proof {
                                assert(named_kept(seq![cd.class_members@[mi as int]]) =~= Seq::<
                                    MethodNode,
                                >::empty());
                                assert(named_kept(cd.class_members@.take(mi + 1)) =~= named_kept(
                                    cd.class_members@.take(mi as int),
                                ));
                            }
                        },
                    }
                },
                _ => {
                    proof {
                        assert(named_kept(seq![cd.class_members@[mi as int]]) =~= Seq::<
                            MethodNode,
                        >::empty());
                        assert(named_kept(cd.class_members@.take(mi + 1)) =~= named_kept(
                            cd.class_members@.take(mi as int),
                        ));
                    }
                },
            }
            mi = mi + 1;
        }
        proof {
            assert(cd.class_members@.take(cd.class_members@.len() as int) =~= cd.class_members@);
        }
        prompt_writer.exit_scope();
        proof {
            let view = prompts_view(prompt_writer.buf@);
            let qs = view.skip(blockstart);
            let named = named_methods(c.members@);
            assert(qs.len() == 1 + named.len());
            assert(view[blockstart] == prefix[blockstart]);
            assert(prefix[blockstart] == class_prompt(c));
            assert(qs[0] == class_prompt(c));
            assert forall|k: int|
                0 <= k < named.len() implies method_prompt_matches(
                aliases,
                c.name@,
                named[k],
                #[trigger] qs[1 + k],
            ) by {
                assert(qs[1 + k] == view[blockstart + 1 + k]);
                assert(method_prompt_matches(
                    aliases,
                    c.name@,
                    named_kept(cd.class_members@)[k],
                    view[blockstart + 1 + k],
                ));
                assert(method_like(named[k], named_kept(cd.class_members@)[k]));
                assert(method_refs(named[k]) == method_refs(named_kept(cd.class_members@)[k]));
                assert(named[k].name == named_kept(cd.class_members@)[k].name);
            }
            assert forall|k: int|
                0 <= k < named.len() implies (#[trigger] named[k]).name->0@.len() > 0 by {
                assert(method_like(named[k], named_kept(cd.class_members@)[k]));
            }
            assert(classes.take(ci + 1) =~= classes.take(ci as int).push(c));
            // the prefix below blockstart is unchanged, so earlier facts carry over
            assert(view.take(blockstart) =~= prefix.take(blockstart));
            assert(prefix.take(blockstart) =~= viewpre);
            assert(view.take(base.len() as int) =~= viewpre.take(base.len() as int));
            assert forall|k: int|
                0 <= k < aliases.len() implies #[trigger] view[base.len() + k] == alias_prompt(
                aliases[k],
            ) by {
                assert(view[base.len() + k] == viewpre[base.len() + k]);
            }
            assert forall|k: int|
                0 <= k < fns.len() implies fn_prompt_matches(
                aliases,
                fns[k],
                #[trigger] view[base.len() + aliases.len() + k],
            ) by {
                assert(view[base.len() + aliases.len() + k] == viewpre[base.len() + aliases.len()
                    + k]);
            }
            lemma_class_blocks_snoc(
                aliases,
                classes.take(ci as int),
                viewpre.skip(nanf as int),
                c,
                qs,
            );
            assert(viewpre.skip(nanf as int) =~= view.take(blockstart).skip(nanf as int));
            assert(view.take(blockstart).skip(nanf as int) + qs =~= view.skip(nanf as int));
            lemma_class_section_len_snoc(classes.take(ci as int), c);
        }
        ci = ci + 1;
    }
    proof {
        let view = prompts_view(prompt_writer.buf@);
        assert(classes.take(classes.len() as int) =~= classes);
        lemma_class_blocks_len(aliases, classes, view.skip(nanf as int));
        assert(view.skip(base.len() as int).skip(aliases.len() + fns.len() as int) =~= view.skip(
            nanf as int,
        ));
        assert forall|k: int|
            0 <= k < aliases.len() implies #[trigger] view.skip(base.len() as int)[k]
            == alias_prompt(aliases[k]) by {
            assert(view.skip(base.len() as int)[k] == view[base.len() + k]);
        }
        assert forall|k: int|
            0 <= k < fns.len() implies fn_prompt_matches(
            aliases,
            fns[k],
            #[trigger] view.skip(base.len() as int)[aliases.len() + k],
        ) by {
            assert(view.skip(base.len() as int)[aliases.len() + k] == view[base.len()
                + aliases.len() + k]);
        }
    }
    Ok(())
}

} // verus!
