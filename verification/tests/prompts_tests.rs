use trackway::ast::{
    CallArg, ClassMemberNode, ClassNode, Decorator, FnNode, MethodNode, Module, ModuleItem,
    Param, PatKind, TypeAliasDecl, TypeExpr,
};
use trackway::prompts::{PromptAstType, PromptType, PromptsWriter};
use trackway::tasks::compile_prompts_for_module;

fn simple_ref(name: &str) -> TypeExpr {
    TypeExpr::Ref { name: name.to_string(), args: Vec::new() }
}

#[test]
fn writer_files_a_prompt_under_its_scope() {
    let mut w = PromptsWriter::new();
    w.set_type(PromptType::TypeScript);
    w.set_ast_ty(PromptAstType::MethodDecl);
    w.enter_scope("Widget");
    w.set_id("render");
    w.set_fmt("render(): Html;").unwrap();
    w.push().unwrap();
    assert_eq!(w.exit_scope(), Some("Widget".to_string()));
    assert_eq!(w.buf.len(), 1);
    assert_eq!(w.buf[0].id.0, "Widget.render");
    assert_eq!(w.buf[0].fmt.0, "render(): Html;");
    assert_eq!(w.buf[0].ty, PromptType::TypeScript);
    assert_eq!(w.buf[0].ast_ty, Some(PromptAstType::MethodDecl));
    assert!(w.buf[0].context.is_empty());
}

#[test]
fn nested_scopes_join_with_dots() {
    let mut w = PromptsWriter::new();
    w.enter_scope("Outer");
    w.enter_scope("Inner");
    w.set_id("leaf");
    w.push().unwrap();
    assert_eq!(w.buf[0].id.0, "Outer.Inner.leaf");
}

#[test]
fn unmodified_writer_pushes_nothing() {
    let mut w = PromptsWriter::new();
    w.push().unwrap();
    assert!(w.buf.is_empty());
}

#[test]
fn empty_id_is_refused() {
    let mut w = PromptsWriter::new();
    w.set_fmt("some text").unwrap();
    let err = w.push().unwrap_err();
    assert_eq!(err.message(), "invalid id: ");
    assert!(w.buf.is_empty());
}

#[test]
fn context_ids_accumulate() {
    let mut w = PromptsWriter::new();
    w.set_id("thing");
    w.add_to_context(&vec!["a".to_string(), "b".to_string()]).unwrap();
    w.add_to_context(&vec!["c".to_string()]).unwrap();
    w.push().unwrap();
    let ctx: Vec<String> = w.buf[0].context.iter().map(|p| p.0.clone()).collect();
    assert_eq!(ctx, vec!["a".to_string(), "b".to_string(), "c".to_string()]);
}

#[test]
fn builder_resets_after_push() {
    let mut w = PromptsWriter::new();
    w.set_type(PromptType::TypeScript);
    w.set_id("first");
    w.push().unwrap();
    w.set_id("second");
    w.push().unwrap();
    assert_eq!(w.buf.len(), 2);
    assert_eq!(w.buf[1].ty, PromptType::PlainText);
    assert_eq!(w.buf[1].id.0, "second");
}

fn demo_module() -> Module {
    let method = MethodNode {
        name: Some("render".to_string()),
        decorators: vec![Decorator {
            callee: Some("hint".to_string()),
            args: vec![CallArg::StrLit("draw it".to_string())],
        }],
        params: vec![Param { kind: PatKind::IdentPat, type_ann: Some(simple_ref("Style")) }],
        return_type: Some(simple_ref("Html")),
        text: "render(style: Style): Html;".to_string(),
    };
    Module {
        items: vec![
            ModuleItem::TypeAliasItem(TypeAliasDecl {
                id: "Style".to_string(),
                rhs: simple_ref("Palette"),
                text: "type Style = Palette;".to_string(),
            }),
            ModuleItem::TypeAliasItem(TypeAliasDecl {
                id: "Palette".to_string(),
                rhs: TypeExpr::Keyword("string".to_string()),
                text: "type Palette = string;".to_string(),
            }),
            ModuleItem::FnItem(FnNode {
                name: "main".to_string(),
                params: vec![Param {
                    kind: PatKind::IdentPat,
                    type_ann: Some(simple_ref("Style")),
                }],
                return_type: None,
                text: "function main(style: Style);".to_string(),
            }),
            ModuleItem::ClassItem(ClassNode {
                name: "Widget".to_string(),
                decorators: Vec::new(),
                super_type_args: Vec::new(),
                members: vec![ClassMemberNode::MethodMember(method)],
                text: "class Widget {}".to_string(),
            }),
        ],
    }
}

#[test]
fn module_prompts_cover_aliases_functions_and_classes() {
    let mut w = PromptsWriter::new();
    compile_prompts_for_module(demo_module(), &mut w).unwrap();

    let ids: Vec<String> = w.buf.iter().map(|p| p.id.0.clone()).collect();
    assert_eq!(
        ids,
        vec![
            "Style".to_string(),
            "Palette".to_string(),
            "main".to_string(),
            "Widget".to_string(),
            "Widget.render".to_string(),
        ]
    );

    // the alias prompts carry the rendered declaration text
    assert_eq!(w.buf[0].fmt.0, "type Style = Palette;");
    assert_eq!(w.buf[0].ast_ty, Some(PromptAstType::TypeAliasDecl));

    // the function prompt's context points at its closure
    let fn_ctx: Vec<String> = w.buf[2].context.iter().map(|p| p.0.clone()).collect();
    let mut sorted_ctx = fn_ctx.clone();
    sorted_ctx.sort();
    assert_eq!(
        sorted_ctx,
        vec![
            "type_alias_decl.Palette".to_string(),
            "type_alias_decl.Style".to_string(),
        ]
    );

    // the method prompt sits under the class scope and closes over its
    // parameter and return types
    assert_eq!(w.buf[4].ast_ty, Some(PromptAstType::MethodDecl));
    let m_ctx: Vec<String> = w.buf[4].context.iter().map(|p| p.0.clone()).collect();
    assert!(m_ctx.contains(&"type_alias_decl.Html".to_string()));
    assert!(m_ctx.contains(&"type_alias_decl.Style".to_string()));
    assert!(m_ctx.contains(&"type_alias_decl.Palette".to_string()));
}

#[test]
fn module_with_unnamed_declaration_fails() {
    let module = Module {
        items: vec![ModuleItem::ClassItem(ClassNode {
            name: String::new(),
            decorators: Vec::new(),
            super_type_args: Vec::new(),
            members: Vec::new(),
            text: "class {}".to_string(),
        })],
    };
    let mut w = PromptsWriter::new();
    assert!(compile_prompts_for_module(module, &mut w).is_err());
}
