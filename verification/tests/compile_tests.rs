use trackway::ast::{
    CallArg, ClassMemberNode, ClassNode, Decorator, MethodNode, Module, ModuleItem, Param,
    PatKind, PropNode, TypeAliasDecl, TypeExpr,
};
use trackway::compile::{
    Compiler, ExtractError, MatchCallStrLit, MediaType, ModuleType, Task, TaskMethod,
    TypeAliasMap,
};

fn simple_ref(name: &str) -> TypeExpr {
    TypeExpr::Ref { name: name.to_string(), args: Vec::new() }
}

fn decorator(callee: &str, arg: &str) -> Decorator {
    Decorator {
        callee: Some(callee.to_string()),
        args: vec![CallArg::StrLit(arg.to_string())],
    }
}

fn typed_param(name: &str) -> Param {
    Param { kind: PatKind::IdentPat, type_ann: Some(simple_ref(name)) }
}

fn hinted_method(name: &str, hint: &str, params: Vec<Param>, ret: Option<TypeExpr>) -> MethodNode {
    MethodNode {
        name: Some(name.to_string()),
        decorators: vec![decorator("hint", hint)],
        params,
        return_type: ret,
        text: String::new(),
    }
}

fn task_class(name: &str, description: &str, members: Vec<ClassMemberNode>) -> ClassNode {
    ClassNode {
        name: name.to_string(),
        decorators: vec![decorator("task", description)],
        super_type_args: vec![simple_ref("Report")],
        members,
        text: String::new(),
    }
}

#[test]
fn extraction_yields_one_task_with_one_method() {
    // a decorated class extending a single-type-argument base, with one
    // hinted, fully annotated method, gives one task with one capability;
    // the unhinted method is simply absent
    let class = task_class(
        "Audit",
        "audits the books",
        vec![
            ClassMemberNode::MethodMember(hinted_method(
                "check",
                "run one check",
                vec![typed_param("Ledger")],
                Some(simple_ref("Verdict")),
            )),
            ClassMemberNode::MethodMember(MethodNode {
                name: Some("helper".to_string()),
                decorators: Vec::new(),
                params: Vec::new(),
                return_type: None,
                text: String::new(),
            }),
        ],
    );
    let task = Task::match_class_decl(class).unwrap().unwrap();
    assert_eq!(task.name, "Audit");
    assert_eq!(task.description, "audits the books");
    assert_eq!(task.methods.len(), 1);
    assert_eq!(task.methods[0].0, "check");
    assert_eq!(task.methods[0].1.params, vec!["Ledger".to_string()]);
    assert_eq!(task.methods[0].1.return_type, Some("Verdict".to_string()));
    assert_eq!(task.methods[0].1.hint, "run one check");
}

#[test]
fn extraction_skips_undecorated_classes() {
    let class = ClassNode {
        name: "Plain".to_string(),
        decorators: Vec::new(),
        super_type_args: Vec::new(),
        members: Vec::new(),
        text: String::new(),
    };
    assert!(Task::match_class_decl(class).unwrap().is_none());
}

#[test]
fn extraction_fails_on_unannotated_parameter() {
    let class = task_class(
        "Audit",
        "audits the books",
        vec![ClassMemberNode::MethodMember(hinted_method(
            "check",
            "run one check",
            vec![Param { kind: PatKind::IdentPat, type_ann: None }],
            None,
        ))],
    );
    assert_eq!(
        Task::match_class_decl(class).unwrap_err(),
        ExtractError::MalformedSignature
    );
}

#[test]
fn extraction_fails_on_compound_parameter_annotation() {
    let class = task_class(
        "Audit",
        "audits the books",
        vec![ClassMemberNode::MethodMember(hinted_method(
            "check",
            "run one check",
            vec![Param {
                kind: PatKind::IdentPat,
                type_ann: Some(TypeExpr::Union(vec![simple_ref("A"), simple_ref("B")])),
            }],
            None,
        ))],
    );
    assert_eq!(
        Task::match_class_decl(class).unwrap_err(),
        ExtractError::MalformedSignature
    );
}

#[test]
fn extraction_fails_on_compound_return_annotation() {
    let class = task_class(
        "Audit",
        "audits the books",
        vec![ClassMemberNode::MethodMember(hinted_method(
            "check",
            "run one check",
            Vec::new(),
            Some(TypeExpr::Array(Box::new(simple_ref("A")))),
        ))],
    );
    assert_eq!(
        Task::match_class_decl(class).unwrap_err(),
        ExtractError::MalformedSignature
    );
}

#[test]
fn decorator_matching_reads_first_string_literal() {
    let m = MatchCallStrLit::new("task");
    assert_eq!(
        m.match_decorator(&decorator("task", "hello")),
        Some("hello".to_string())
    );
    assert_eq!(m.match_decorator(&decorator("other", "hello")), None);
    assert_eq!(
        m.match_decorator(&Decorator { callee: Some("task".to_string()), args: Vec::new() }),
        None
    );
    assert_eq!(
        m.match_decorator(&Decorator {
            callee: Some("task".to_string()),
            args: vec![CallArg::OtherArg],
        }),
        None
    );
    assert_eq!(m.match_decorator(&Decorator { callee: None, args: Vec::new() }), None);
}

#[test]
fn type_alias_map_records_and_overwrites() {
    let mut map = TypeAliasMap::default();
    map.insert_decl(TypeAliasDecl {
        id: "A".to_string(),
        rhs: simple_ref("B"),
        text: "type A = B;".to_string(),
    });
    map.insert_decl(TypeAliasDecl {
        id: "A".to_string(),
        rhs: simple_ref("C"),
        text: "type A = C;".to_string(),
    });
    let got = map.get_decl(&"A".to_string()).unwrap();
    assert_eq!(got.text, "type A = C;");
    assert!(map.get_decl(&"B".to_string()).is_none());
}

#[test]
fn ts_type_to_id_reads_reference_heads() {
    assert_eq!(
        TypeAliasMap::ts_type_to_id(&simple_ref("Foo")),
        Some("Foo".to_string())
    );
    assert_eq!(
        TypeAliasMap::ts_type_to_id(&TypeExpr::Keyword("number".to_string())),
        None
    );
}

#[test]
fn media_type_decisions() {
    assert_eq!(
        Compiler::module_type_from_media_type(&MediaType::Json),
        ModuleType::Json
    );
    assert_eq!(
        Compiler::module_type_from_media_type(&MediaType::TypeScript),
        ModuleType::JavaScript
    );
    assert!(Compiler::should_process_from_media_type(&MediaType::TypeScript));
    assert!(Compiler::should_process_from_media_type(&MediaType::Tsx));
    assert!(Compiler::should_process_from_media_type(&MediaType::Dts));
    assert!(!Compiler::should_process_from_media_type(&MediaType::Json));
    assert!(!Compiler::should_process_from_media_type(&MediaType::JavaScript));
}

fn demo_module() -> Module {
    Module {
        items: vec![
            ModuleItem::TypeAliasItem(TypeAliasDecl {
                id: "Ledger".to_string(),
                rhs: simple_ref("Book"),
                text: "type Ledger = Book;".to_string(),
            }),
            ModuleItem::TypeAliasItem(TypeAliasDecl {
                id: "Book".to_string(),
                rhs: TypeExpr::Keyword("string".to_string()),
                text: "type Book = string;".to_string(),
            }),
            ModuleItem::TypeAliasItem(TypeAliasDecl {
                id: "Unrelated".to_string(),
                rhs: TypeExpr::Keyword("number".to_string()),
                text: "type Unrelated = number;".to_string(),
            }),
            ModuleItem::ClassItem(task_class(
                "Audit",
                "audits the books",
                vec![ClassMemberNode::MethodMember(hinted_method(
                    "check",
                    "run one check",
                    vec![typed_param("Ledger")],
                    Some(simple_ref("Verdict")),
                ))],
            )),
            ModuleItem::OtherItem,
        ],
    }
}

#[test]
fn register_module_fills_catalog_and_tasks() {
    let mut compiler = Compiler::new();
    let failed = compiler.register_module(demo_module());
    assert!(failed.is_empty());
    assert_eq!(compiler.type_map.entries.len(), 3);
    assert_eq!(
        compiler.get_task_description("Audit").unwrap(),
        "audits the books"
    );
    assert!(compiler.get_task_description("Nope").is_err());
}

#[test]
fn register_module_reports_malformed_tasks_and_continues() {
    let mut compiler = Compiler::new();
    let broken = ClassNode {
        name: "Broken".to_string(),
        decorators: vec![decorator("task", "broken")],
        super_type_args: vec![simple_ref("Report")],
        members: vec![ClassMemberNode::MethodMember(hinted_method(
            "bad",
            "bad method",
            vec![Param { kind: PatKind::IdentPat, type_ann: None }],
            None,
        ))],
        text: String::new(),
    };
    let module = Module {
        items: vec![
            ModuleItem::ClassItem(broken),
            ModuleItem::ClassItem(task_class("Fine", "a fine task", Vec::new())),
        ],
    };
    let failed = compiler.register_module(module);
    assert_eq!(failed, vec!["Broken".to_string()]);
    assert!(compiler.get_task_description("Broken").is_err());
    assert_eq!(compiler.get_task_description("Fine").unwrap(), "a fine task");
}

#[test]
fn context_document_renders_closure_and_stubs() {
    let mut compiler = Compiler::new();
    let failed = compiler.register_module(demo_module());
    assert!(failed.is_empty());
    let doc = compiler.print_task_context("Audit").unwrap();
    // closure of {Report (output), Verdict (return), Ledger (param)}:
    // Ledger -> Book; Unrelated stays out; declarations in catalog order,
    // then the stub with its hint
    let expected = "type Ledger = Book;\ntype Book = string;\n\
                    \n// hint: run one check\nfunction check(_: Ledger): Verdict;\n";
    assert_eq!(doc, expected);
}

#[test]
fn context_document_of_unknown_task_is_an_error() {
    let compiler = Compiler::new();
    assert!(compiler.print_task_context("Nope").is_err());
}

#[test]
fn context_document_never_contains_bodies_or_decorators() {
    let mut compiler = Compiler::new();
    compiler.register_module(demo_module());
    let doc = compiler.print_task_context("Audit").unwrap();
    assert!(!doc.contains("@task"));
    assert!(!doc.contains("@hint"));
    assert!(!doc.contains("{ "));
}

#[test]
fn from_method_skips_and_fails_as_specified() {
    // no hint decorator: not a capability, not an error
    let plain = MethodNode {
        name: Some("quiet".to_string()),
        decorators: Vec::new(),
        params: Vec::new(),
        return_type: None,
        text: String::new(),
    };
    assert!(TaskMethod::from_method(&plain).unwrap().is_none());
    // hinted and well-formed: a capability without a return type
    let ok = hinted_method("go", "go now", vec![typed_param("A")], None);
    let tm = TaskMethod::from_method(&ok).unwrap().unwrap();
    assert_eq!(tm.params, vec!["A".to_string()]);
    assert_eq!(tm.return_type, None);
    // a rest parameter with no annotation fails
    let bad = hinted_method(
        "go",
        "go now",
        vec![Param { kind: PatKind::OtherPat, type_ann: Some(simple_ref("A")) }],
        None,
    );
    assert!(TaskMethod::from_method(&bad).is_err());
}

#[test]
fn prop_members_do_not_disturb_extraction() {
    let class = task_class(
        "Audit",
        "audits the books",
        vec![
            ClassMemberNode::PropMember(PropNode {
                name: Some("state".to_string()),
                text: "state: number;".to_string(),
            }),
            ClassMemberNode::MethodMember(hinted_method("go", "go", Vec::new(), None)),
        ],
    );
    let task = Task::match_class_decl(class).unwrap().unwrap();
    assert_eq!(task.methods.len(), 1);
}
