use trackway::ast::{TypeAliasDecl, TypeExpr, ObjectMember};
use trackway::closure::find_closure;
use trackway::filter::{FilteredModule, TypeRef};

fn alias(id: &str, rhs: TypeExpr, text: &str) -> TypeAliasDecl {
    TypeAliasDecl { id: id.to_string(), rhs, text: text.to_string() }
}

fn simple_ref(name: &str) -> TypeExpr {
    TypeExpr::Ref { name: name.to_string(), args: Vec::new() }
}

fn sorted(mut v: Vec<String>) -> Vec<String> {
    v.sort();
    v
}

#[test]
fn closure_follows_chain_through_catalog() {
    // catalog { A -> "type A = B"; B -> "type B = {x: C}"; C -> "type C = number" },
    // roots {A}  =>  closure {A, B, C}
    let decls = vec![
        alias("A", simple_ref("B"), "type A = B;"),
        alias(
            "B",
            TypeExpr::Object(vec![ObjectMember { key: "x".to_string(), ty: simple_ref("C") }]),
            "type B = {x: C};",
        ),
        alias("C", TypeExpr::Keyword("number".to_string()), "type C = number;"),
    ];
    let roots = vec!["A".to_string()];
    let closure = find_closure(&decls, &roots);
    assert_eq!(
        sorted(closure),
        vec!["A".to_string(), "B".to_string(), "C".to_string()]
    );
}

#[test]
fn closure_terminates_on_cycles() {
    // catalog { A -> "type A = B"; B -> "type B = A" }, roots {A} => {A, B},
    // and the resolver must not loop forever
    let decls = vec![
        alias("A", simple_ref("B"), "type A = B;"),
        alias("B", simple_ref("A"), "type B = A;"),
    ];
    let roots = vec!["A".to_string()];
    let closure = find_closure(&decls, &roots);
    assert_eq!(sorted(closure), vec!["A".to_string(), "B".to_string()]);
}

#[test]
fn closure_includes_unknown_roots() {
    // a root the catalog does not declare is still in the closure
    let decls = vec![alias("A", simple_ref("B"), "type A = B;")];
    let roots = vec!["External".to_string()];
    let closure = find_closure(&decls, &roots);
    assert_eq!(closure, vec!["External".to_string()]);
}

#[test]
fn closure_is_idempotent() {
    let decls = vec![
        alias("A", simple_ref("B"), "type A = B;"),
        alias("B", simple_ref("A"), "type B = A;"),
        alias("C", simple_ref("A"), "type C = A;"),
    ];
    let roots = vec!["A".to_string(), "A".to_string()];
    let first = sorted(find_closure(&decls, &roots));
    let second = sorted(find_closure(&decls, &roots));
    assert_eq!(first, second);
    assert_eq!(first, vec!["A".to_string(), "B".to_string()]);
}

#[test]
fn closure_ignores_unreachable_entries() {
    let decls = vec![
        alias("A", TypeExpr::Keyword("string".to_string()), "type A = string;"),
        alias("Lonely", simple_ref("A"), "type Lonely = A;"),
    ];
    let roots = vec!["A".to_string()];
    let closure = find_closure(&decls, &roots);
    assert_eq!(closure, vec!["A".to_string()]);
}

#[test]
fn closure_handles_generic_and_compound_types() {
    // roots drawn from union members, tuple elements, arrays and generic
    // arguments are all followed
    let decls = vec![
        alias(
            "A",
            TypeExpr::Union(vec![simple_ref("B"), TypeExpr::Array(Box::new(simple_ref("C")))]),
            "type A = B | C[];",
        ),
        alias(
            "B",
            TypeExpr::Ref { name: "Box".to_string(), args: vec![simple_ref("D")] },
            "type B = Box<D>;",
        ),
        alias("C", TypeExpr::Tuple(vec![simple_ref("E")]), "type C = [E];"),
    ];
    let roots = vec!["A".to_string()];
    let closure = find_closure(&decls, &roots);
    assert_eq!(
        sorted(closure),
        vec![
            "A".to_string(),
            "B".to_string(),
            "Box".to_string(),
            "C".to_string(),
            "D".to_string(),
            "E".to_string()
        ]
    );
}

#[test]
fn filtered_module_closure_of_type_refs() {
    let fm = FilteredModule {
        type_alias_decls: vec![
            alias("A", simple_ref("B"), "type A = B;"),
            alias("B", TypeExpr::Keyword("number".to_string()), "type B = number;"),
        ],
        class_decls: Vec::new(),
        fn_decls: Vec::new(),
    };
    let refs = vec![TypeRef("A".to_string())];
    let closure = fm.find_closure_of_type_refs(&refs);
    assert_eq!(sorted(closure), vec!["A".to_string(), "B".to_string()]);
}
