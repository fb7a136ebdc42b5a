use snapcall::ctype::printf_format;
use snapcall::entity::{collect_globals, handle_args, is_global};
use snapcall::flatten::{handle_arg, Assignment, Var};
use snapcall::walker::same_text;
use snapcall::{generate, CType, Entity, EntityKind, Error, Field, Linkage, LiteralKind, Primitive, TypeKind};

fn prim(display: &str, p: Primitive) -> CType {
    CType { display: display.to_string(), kind: TypeKind::Primitive(p) }
}

fn int_t() -> CType {
    prim("int", Primitive::Int)
}

fn pointer(display: &str, to: CType) -> CType {
    CType { display: display.to_string(), kind: TypeKind::Pointer(Box::new(to)) }
}

fn typedef(display: &str, of: CType) -> CType {
    CType { display: display.to_string(), kind: TypeKind::Typedef(Box::new(of)) }
}

fn elaborated(display: &str, of: CType) -> CType {
    CType { display: display.to_string(), kind: TypeKind::Elaborated(Box::new(of)) }
}

fn record(display: &str, fields: Vec<(&str, CType)>) -> CType {
    let fields = fields
        .into_iter()
        .map(|(n, t)| Field { name: Some(n.to_string()), ty: Some(t) })
        .collect();
    CType { display: display.to_string(), kind: TypeKind::Record(fields) }
}

fn node(kind: EntityKind) -> Entity {
    Entity {
        kind,
        name: None,
        ty: None,
        result_type: None,
        arguments: None,
        linkage: None,
        is_definition: false,
        reference: None,
        children: Vec::new(),
    }
}

fn param(name: &str, ty: CType) -> Entity {
    let mut e = node(EntityKind::ParmDecl);
    e.name = Some(name.to_string());
    e.ty = Some(ty);
    e.linkage = Some(Linkage::Automatic);
    e
}

fn global(name: &str, ty: CType) -> Entity {
    let mut e = node(EntityKind::VarDecl);
    e.name = Some(name.to_string());
    e.ty = Some(ty);
    e.linkage = Some(Linkage::External);
    e
}

fn read(target: Entity) -> Entity {
    let mut e = node(EntityKind::DeclRefExpr);
    e.name = target.name.clone();
    e.reference = Some(Box::new(target));
    e
}

fn with_children(kind: EntityKind, children: Vec<Entity>) -> Entity {
    let mut e = node(kind);
    e.children = children;
    e
}

fn function(name: &str, result: CType, params: Vec<(&str, CType)>, body: Vec<Entity>, definition: bool) -> Entity {
    let mut e = node(EntityKind::FunctionDecl);
    e.name = Some(name.to_string());
    e.result_type = Some(result);
    e.linkage = Some(Linkage::External);
    e.is_definition = definition;
    let args: Vec<Entity> = params.into_iter().map(|(n, t)| param(n, t)).collect();
    let mut children: Vec<Entity> = Vec::new();
    if definition {
        children.push(with_children(EntityKind::Other, body));
    }
    e.arguments = Some(args);
    e.children = children;
    e
}

fn unit(decls: Vec<Entity>) -> Entity {
    with_children(EntityKind::Other, decls)
}

fn void() -> CType {
    prim("void", Primitive::Void)
}

fn add_function() -> Entity {
    let body = vec![with_children(
        EntityKind::Other,
        vec![read(param("a", int_t())), read(param("b", int_t()))],
    )];
    function("add", int_t(), vec![("a", int_t()), ("b", int_t())], body, true)
}

const ADD_SNAPSHOT: &str = r#"static inline void snapshot_add(FILE *stream, int a, int b) {
    static int counter = 0;
    fprintf(stream, "static inline int replay_add_%d(void) {\n", ++counter);
    fprintf(stream, "    int a;\n");
    fprintf(stream, "    int b;\n");
    fprintf(stream, "    a = %d;\n", a);
    fprintf(stream, "    b = %d;\n", b);
    fprintf(stream, "    return add(a, b);\n");
    fprintf(stream, "}\n");
}
"#;

#[test]
fn scenario_add() {
    let out = generate(&unit(vec![add_function()]), None).unwrap();
    assert_eq!(out, format!("#include <stdio.h>\n\n{}", ADD_SNAPSHOT));
}

#[test]
fn scenario_use_global() {
    let g = global("g", int_t());
    let body = vec![with_children(
        EntityKind::Other,
        vec![read(param("x", int_t())), read(global("g", int_t()))],
    )];
    let f = function("use_global", int_t(), vec![("x", int_t())], body, true);
    let out = generate(&unit(vec![g, f]), None).unwrap();
    let expected = r#"#include <stdio.h>

static inline void snapshot_use_global(FILE *stream, int x) {
    static int counter = 0;
    fprintf(stream, "static inline int replay_use_global_%d(void) {\n", ++counter);
    fprintf(stream, "    int x;\n");
    fprintf(stream, "    x = %d;\n", x);
    fprintf(stream, "    g = %d;\n", g);
    fprintf(stream, "    return use_global(x);\n");
    fprintf(stream, "}\n");
}
"#;
    assert_eq!(out, expected);
}

fn struct_p() -> CType {
    elaborated("struct P", record("struct P", vec![("x", int_t()), ("y", int_t())]))
}

#[test]
fn scenario_struct_sum() {
    let f = function("sum", int_t(), vec![("p", struct_p())], vec![], true);
    let out = generate(&unit(vec![f]), None).unwrap();
    let expected = r#"#include <stdio.h>

static inline void snapshot_sum(FILE *stream, struct P p) {
    static int counter = 0;
    fprintf(stream, "static inline int replay_sum_%d(void) {\n", ++counter);
    fprintf(stream, "    struct P p;\n");
    fprintf(stream, "    p.x = %d;\n", p.x);
    fprintf(stream, "    p.y = %d;\n", p.y);
    fprintf(stream, "    return sum(p);\n");
    fprintf(stream, "}\n");
}
"#;
    assert_eq!(out, expected);
}

#[test]
fn scenario_pointer_touch() {
    let f = function("touch", void(), vec![("v", pointer("int *", int_t()))], vec![], true);
    let out = generate(&unit(vec![f]), None).unwrap();
    let expected = r#"#include <stdio.h>

static inline void snapshot_touch(FILE *stream, int * v) {
    static int counter = 0;
    fprintf(stream, "static inline void replay_touch_%d(void) {\n", ++counter);
    fprintf(stream, "    int * v;\n");
    fprintf(stream, "    int v_val;\n");
    fprintf(stream, "    v_val = %d;\n", (*v));
    fprintf(stream, "    v = %s;\n", "(&v_val)");
    fprintf(stream, "    touch(v);\n");
    fprintf(stream, "}\n");
}
"#;
    assert_eq!(out, expected);
}

#[test]
fn primitive_params_give_one_local_and_one_assignment_each() {
    let args = vec![
        param("a", int_t()),
        param("b", prim("long", Primitive::Long)),
        param("c", typedef("myint", prim("unsigned int", Primitive::UInt))),
    ];
    let mut locals: Vec<Var> = Vec::new();
    let mut assignments: Vec<Assignment> = Vec::new();
    handle_args(&mut locals, &mut assignments, &args).unwrap();
    assert_eq!(locals.len(), 3);
    assert_eq!(assignments.len(), 3);
    let lhs: Vec<&str> = assignments.iter().map(|a| a.lhs.as_str()).collect();
    assert_eq!(lhs, vec!["a", "b", "c"]);
    let rhs: Vec<&str> = assignments.iter().map(|a| a.rhs.as_str()).collect();
    assert_eq!(rhs, vec!["a", "b", "c"]);
    assert_eq!(assignments[1].kind, LiteralKind::Number(Primitive::Long));
    assert_eq!(assignments[2].kind, LiteralKind::Number(Primitive::UInt));
    assert_eq!(locals[2].display, "unsigned int");
}

#[test]
fn pointer_param_points_at_fresh_local() {
    let mut locals: Vec<Var> = Vec::new();
    let mut assignments: Vec<Assignment> = Vec::new();
    let t = pointer("double *", prim("double", Primitive::Double));
    handle_arg(&mut locals, &mut assignments, &t, "d", "d", true).unwrap();
    let names: Vec<&str> = locals.iter().map(|l| l.name.as_str()).collect();
    assert_eq!(names, vec!["d", "d_val"]);
    assert_eq!(locals[0].display, "double *");
    let last = assignments.last().unwrap();
    assert_eq!(last.lhs, "d");
    assert_eq!(last.kind, LiteralKind::Address);
    assert_eq!(last.rhs, "\"(&d_val)\"");
    assert_eq!(assignments[0].rhs, "(*d)");
}

#[test]
fn pointer_to_pointer_stages_each_level() {
    let mut locals: Vec<Var> = Vec::new();
    let mut assignments: Vec<Assignment> = Vec::new();
    let t = pointer("int **", pointer("int *", int_t()));
    handle_arg(&mut locals, &mut assignments, &t, "q", "q", true).unwrap();
    let names: Vec<&str> = locals.iter().map(|l| l.name.as_str()).collect();
    assert_eq!(names, vec!["q", "q_val", "q_val_val"]);
    let rhs: Vec<&str> = assignments.iter().map(|a| a.rhs.as_str()).collect();
    assert_eq!(rhs, vec!["(*(*q))", "\"(&q_val_val)\"", "\"(&q_val)\""]);
}

#[test]
fn nested_record_leaves_in_declaration_order() {
    let inner = elaborated("struct In", record("struct In", vec![("u", int_t()), ("w", prim("float", Primitive::Float))]));
    let outer = record("struct Out", vec![("a", int_t()), ("in", inner), ("z", prim("long long", Primitive::LongLong))]);
    let mut locals: Vec<Var> = Vec::new();
    let mut assignments: Vec<Assignment> = Vec::new();
    handle_arg(&mut locals, &mut assignments, &outer, "o", "o", true).unwrap();
    assert_eq!(locals.len(), 1);
    assert_eq!(locals[0].name, "o");
    let lhs: Vec<&str> = assignments.iter().map(|a| a.lhs.as_str()).collect();
    assert_eq!(lhs, vec!["o.a", "o.in.u", "o.in.w", "o.z"]);
    assert_eq!(assignments[2].kind, LiteralKind::Number(Primitive::Float));
}

#[test]
fn pointer_to_record_reads_through_the_pointer() {
    let t = pointer("struct P *", struct_p());
    let mut locals: Vec<Var> = Vec::new();
    let mut assignments: Vec<Assignment> = Vec::new();
    handle_arg(&mut locals, &mut assignments, &t, "p", "p", true).unwrap();
    let names: Vec<&str> = locals.iter().map(|l| l.name.as_str()).collect();
    assert_eq!(names, vec!["p", "p_val"]);
    let pairs: Vec<(&str, &str)> = assignments.iter().map(|a| (a.lhs.as_str(), a.rhs.as_str())).collect();
    assert_eq!(pairs, vec![("p_val.x", "(*p).x"), ("p_val.y", "(*p).y"), ("p", "\"(&p_val)\"")]);
}

#[test]
fn field_without_name_is_an_error() {
    let t = CType {
        display: "struct Q".to_string(),
        kind: TypeKind::Record(vec![Field { name: None, ty: Some(int_t()) }]),
    };
    let mut locals: Vec<Var> = Vec::new();
    let mut assignments: Vec<Assignment> = Vec::new();
    let r = handle_arg(&mut locals, &mut assignments, &t, "q", "q", true);
    assert!(matches!(r, Err(Error::String(_))));
}

#[test]
fn field_without_type_fails_generation() {
    let t = CType {
        display: "struct Q".to_string(),
        kind: TypeKind::Record(vec![Field { name: Some("k".to_string()), ty: None }]),
    };
    let f = function("f", int_t(), vec![("q", t)], vec![], true);
    assert!(matches!(generate(&unit(vec![f]), None), Err(Error::String(_))));
}

#[test]
fn unsupported_type_fails_without_output() {
    let f = function("c", int_t(), vec![("ch", prim("char", Primitive::Other))], vec![], true);
    let r = generate(&unit(vec![add_function(), f]), None);
    assert!(matches!(r, Err(Error::String(_))));
}

#[test]
fn literal_formats() {
    assert_eq!(printf_format(LiteralKind::Number(Primitive::Int)), Some("%d"));
    assert_eq!(printf_format(LiteralKind::Number(Primitive::Long)), Some("%ld"));
    assert_eq!(printf_format(LiteralKind::Number(Primitive::LongLong)), Some("%lld"));
    assert_eq!(printf_format(LiteralKind::Number(Primitive::Float)), Some("%f"));
    assert_eq!(printf_format(LiteralKind::Number(Primitive::Double)), Some("%lf"));
    assert_eq!(printf_format(LiteralKind::Number(Primitive::UInt)), Some("%u"));
    assert_eq!(printf_format(LiteralKind::Address), Some("%s"));
    assert_eq!(printf_format(LiteralKind::Number(Primitive::Other)), None);
    assert_eq!(printf_format(LiteralKind::Number(Primitive::Void)), None);
    assert_eq!(printf_format(LiteralKind::Composite), None);
}

#[test]
fn each_read_of_a_global_is_one_assignment() {
    let body = vec![with_children(
        EntityKind::Other,
        vec![
            read(global("g", int_t())),
            with_children(EntityKind::Other, vec![read(global("g", int_t())), read(param("x", int_t()))]),
            read(global("h", prim("long", Primitive::Long))),
        ],
    )];
    let mut assignments: Vec<Assignment> = Vec::new();
    collect_globals(&mut assignments, &body).unwrap();
    let pairs: Vec<(&str, &str)> = assignments.iter().map(|a| (a.lhs.as_str(), a.rhs.as_str())).collect();
    assert_eq!(pairs, vec![("g", "g"), ("g", "g"), ("h", "h")]);
    assert_eq!(assignments[2].kind, LiteralKind::Number(Primitive::Long));
}

#[test]
fn internal_linkage_is_not_a_global() {
    let mut s = global("s", int_t());
    s.linkage = Some(Linkage::Internal);
    assert!(!is_global(&s));
    assert!(is_global(&global("g", int_t())));
    assert!(!is_global(&param("x", int_t())));
    let body = vec![read(s)];
    let mut assignments: Vec<Assignment> = Vec::new();
    collect_globals(&mut assignments, &body).unwrap();
    assert!(assignments.is_empty());
}

#[test]
fn global_without_type_is_an_error() {
    let mut g = global("g", int_t());
    g.ty = None;
    let mut assignments: Vec<Assignment> = Vec::new();
    let r = collect_globals(&mut assignments, &vec![read(g)]);
    assert!(matches!(r, Err(Error::String(_))));
}

#[test]
fn declarations_are_skipped_and_filter_selects() {
    let decl = function("add", int_t(), vec![("a", int_t()), ("b", int_t())], vec![], false);
    let other = function("other", void(), vec![], vec![], true);
    let tu = unit(vec![decl, add_function(), other]);
    let only_add = generate(&tu, Some("add")).unwrap();
    assert_eq!(only_add, format!("#include <stdio.h>\n\n{}", ADD_SNAPSHOT));
    let none = generate(&tu, Some("missing")).unwrap();
    assert_eq!(none, "#include <stdio.h>\n\n");
    let all = generate(&tu, None).unwrap();
    assert!(all.contains("snapshot_add"));
    assert!(all.ends_with("    fprintf(stream, \"    other();\\n\");\n    fprintf(stream, \"}\\n\");\n}\n"));
}

#[test]
fn generation_is_repeatable() {
    let tu = unit(vec![add_function()]);
    assert_eq!(generate(&tu, None).unwrap(), generate(&tu, None).unwrap());
}

#[test]
fn empty_unit_has_only_the_include() {
    assert_eq!(generate(&unit(vec![]), None).unwrap(), "#include <stdio.h>\n\n");
}

#[test]
fn typedef_param_keeps_primitive_format() {
    let f = function("t", int_t(), vec![("m", typedef("myint", int_t()))], vec![], true);
    let out = generate(&unit(vec![f]), None).unwrap();
    assert!(out.contains("snapshot_t(FILE *stream, myint m)"));
    assert!(out.contains("    fprintf(stream, \"    m = %d;\\n\", m);\n"));
}

#[test]
fn same_text_compares_contents() {
    assert!(same_text("abc", "abc"));
    assert!(!same_text("abc", "abd"));
    assert!(!same_text("ab", "abc"));
    assert!(same_text("", ""));
}
