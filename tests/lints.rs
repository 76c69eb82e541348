use bevy_lint::diagnostic::{Applicability, Diagnostic};
use bevy_lint::dispatch::Dispatcher;
use bevy_lint::hir::{Crate, Expr, ExprKind, FnDecl, FnItem, FnRetTy, PathSegment, Stmt};
use bevy_lint::lints::register_passes;
use bevy_lint::ty::{detuple, generic_type_at, match_type, GenericArg, Span, Ty, TyKind};

fn span_of(source: &str, needle: &str) -> Span {
    let lo = source.find(needle).expect("needle in source");
    Span { lo, hi: lo + needle.len() }
}

fn path(segments: &[&str]) -> Vec<String> {
    segments.iter().map(|s| s.to_string()).collect()
}

fn adt(segments: &[&str], args: Vec<GenericArg>, span: Span, size: Option<u64>) -> Ty {
    Ty { kind: TyKind::Adt { path: path(segments), args }, span, size }
}

fn reference(inner: Ty, mutable: bool, span: Span) -> Ty {
    Ty { kind: TyKind::Ref { mutable, inner: Box::new(inner) }, span, size: Some(8) }
}

fn unit(span: Span) -> Ty {
    Ty { kind: TyKind::Tuple(Vec::new()), span, size: Some(0) }
}

const APP: [&str; 3] = ["bevy_app", "app", "App"];
const EVENTS: [&str; 4] = ["bevy_ecs", "event", "collections", "Events"];
const QUERY: [&str; 4] = ["bevy_ecs", "system", "query", "Query"];

fn leaf(ty: Ty, span: Span) -> Expr {
    Expr { kind: ExprKind::Other, ty, span }
}

fn method_call(name: &str, generic_args: Vec<GenericArg>, receiver: Expr, args: Vec<Expr>, span: Span, method_span: Span, ty: Ty) -> Expr {
    Expr {
        kind: ExprKind::MethodCall {
            segment: PathSegment { name: name.to_string(), generic_args },
            receiver: Box::new(receiver),
            args,
            method_span,
        },
        ty,
        span,
    }
}

fn body(stmts: Vec<Stmt>, span: Span) -> Expr {
    Expr { kind: ExprKind::Block { stmts }, ty: unit(span), span }
}

fn run_all(source: &str, fns: Vec<FnItem>) -> Vec<Diagnostic> {
    let mut dispatcher = Dispatcher::new();
    register_passes(&mut dispatcher);
    dispatcher.check_crate(&Crate { source: source.to_string(), fns })
}

fn app_ty(span: Span) -> Ty {
    adt(&APP, Vec::new(), span, Some(64))
}

#[test]
fn matcher_ignores_reference_layers() {
    let s = Span { lo: 0, hi: 0 };
    let want = path(&APP);
    let plain = app_ty(s);
    assert!(match_type(&plain, &want));
    let one = reference(app_ty(s), true, s);
    assert!(match_type(&one, &want));
    let three = reference(reference(reference(app_ty(s), false, s), true, s), false, s);
    assert!(match_type(&three, &want));
    // An owning wrapper is not stripped.
    let boxed = adt(&["alloc", "boxed", "Box"], vec![GenericArg::Type(app_ty(s))], s, Some(8));
    assert!(!match_type(&boxed, &want));
    // Generic arguments play no part.
    let generic = adt(&APP, vec![GenericArg::Type(unit(s))], s, Some(64));
    assert!(match_type(&generic, &want));
    assert!(!match_type(&plain, &path(&EVENTS)));
}

#[test]
fn generic_argument_by_index() {
    let source = "Container<Alpha, Beta>";
    let a = adt(&["crate_a", "Alpha"], Vec::new(), span_of(source, "Alpha"), Some(1));
    let b = adt(&["crate_a", "Beta"], Vec::new(), span_of(source, "Beta"), Some(1));
    let container = adt(
        &["crate_a", "Container"],
        vec![GenericArg::Type(a), GenericArg::Type(b)],
        span_of(source, source),
        Some(2),
    );
    let second = generic_type_at(&container, 1).expect("second argument");
    let text = bevy_lint::source::snippet(source, second.span).expect("text of the argument");
    assert_eq!(text, "Beta");
    assert!(generic_type_at(&container, 2).is_none());
    // A type that is not nominal has no generic arguments.
    assert!(generic_type_at(&unit(Span { lo: 0, hi: 0 }), 0).is_none());
}

#[test]
fn generic_argument_lifetime_is_not_a_type() {
    let s = Span { lo: 0, hi: 0 };
    let q = adt(&QUERY, vec![GenericArg::Lifetime("'w".to_string()), GenericArg::Type(unit(s))], s, None);
    assert!(generic_type_at(&q, 0).is_none());
    assert!(generic_type_at(&q, 1).is_some());
}

#[test]
fn detuple_single_and_tuple() {
    let source = "(A, B, C) X";
    let x = adt(&["m", "X"], Vec::new(), span_of(source, "X"), Some(1));
    let single = detuple(&x);
    assert_eq!(single.len(), 1);
    assert_eq!(single[0].span, x.span);
    let elems: Vec<Ty> = ["A", "B", "C"]
        .iter()
        .map(|n| adt(&["m", n], Vec::new(), span_of(source, n), Some(1)))
        .collect();
    let tuple = Ty { kind: TyKind::Tuple(elems), span: span_of(source, "(A, B, C)"), size: Some(3) };
    let first = detuple(&tuple);
    let second = detuple(&tuple);
    let spans = |v: &Vec<&Ty>| v.iter().map(|t| t.span).collect::<Vec<Span>>();
    assert_eq!(spans(&first), vec![span_of(source, "A"), span_of(source, "B"), span_of(source, "C")]);
    assert_eq!(spans(&first), spans(&second));
}

#[test]
fn scenario_main_without_appexit() {
    let source = "fn main() {\n    app.run();\n}\n";
    let call_span = span_of(source, "app.run()");
    let ret_span = Span { lo: 9, hi: 9 };
    let call = method_call(
        "run",
        Vec::new(),
        leaf(app_ty(span_of(source, "app")), span_of(source, "app")),
        Vec::new(),
        call_span,
        span_of(source, "run()"),
        adt(&["bevy_app", "app", "AppExit"], Vec::new(), call_span, Some(1)),
    );
    let item = FnItem {
        name: "main".to_string(),
        is_entry: true,
        decl: FnDecl { inputs: Vec::new(), output: FnRetTy::DefaultReturn(ret_span) },
        body: body(vec![Stmt { expr: call, semi: Some(span_of(source, ";")) }], span_of(source, "{\n    app.run();\n}")),
    };
    let diags = run_all(source, vec![item]);
    assert_eq!(diags.len(), 1);
    let d = &diags[0];
    assert_eq!(d.lint, "bevy::main_return_without_appexit");
    assert_eq!(d.span, span_of(source, "run()"));
    assert_ne!(d.span, call_span);
    assert_eq!(d.suggestions.len(), 2);
    assert_eq!(d.suggestions[0].span, ret_span);
    assert_eq!(d.suggestions[0].replacement, "-> AppExit");
    assert_eq!(d.suggestions[0].applicability, Applicability::MaybeIncorrect);
    assert_eq!(d.suggestions[1].span, span_of(source, ";"));
    assert_eq!(d.suggestions[1].replacement, "");
}

#[test]
fn main_returning_other_type_is_left_alone() {
    let source = "fn main() -> Result<(), E> {\n    app.run();\n}\n";
    let call_span = span_of(source, "app.run()");
    let call = method_call(
        "run",
        Vec::new(),
        leaf(app_ty(span_of(source, "app")), span_of(source, "app")),
        Vec::new(),
        call_span,
        span_of(source, "run()"),
        unit(call_span),
    );
    let ret = adt(&["core", "result", "Result"], Vec::new(), span_of(source, "Result<(), E>"), None);
    let item = FnItem {
        name: "main".to_string(),
        is_entry: true,
        decl: FnDecl { inputs: Vec::new(), output: FnRetTy::Return(ret) },
        body: body(vec![Stmt { expr: call, semi: Some(span_of(source, ";")) }], span_of(source, "{")),
    };
    assert!(run_all(source, vec![item]).is_empty());
}

#[test]
fn run_in_a_function_that_is_not_the_entry_point() {
    let source = "fn start() {\n    app.run();\n}\n";
    let call_span = span_of(source, "app.run()");
    let call = method_call(
        "run",
        Vec::new(),
        leaf(app_ty(span_of(source, "app")), span_of(source, "app")),
        Vec::new(),
        call_span,
        span_of(source, "run()"),
        unit(call_span),
    );
    let item = FnItem {
        name: "start".to_string(),
        is_entry: false,
        decl: FnDecl { inputs: Vec::new(), output: FnRetTy::DefaultReturn(Span { lo: 10, hi: 10 }) },
        body: body(vec![Stmt { expr: call, semi: Some(span_of(source, ";")) }], span_of(source, "{")),
    };
    assert!(run_all(source, vec![item]).is_empty());
}

fn events_of(source: &str, event_span: Span, events_span: Span) -> Ty {
    adt(&EVENTS, vec![GenericArg::Type(adt(&["game", "MyEvent"], Vec::new(), event_span, Some(0)))], events_span, Some(24))
}

fn setup_fn(source: &str, call: Expr) -> FnItem {
    FnItem {
        name: "setup".to_string(),
        is_entry: false,
        decl: FnDecl { inputs: Vec::new(), output: FnRetTy::DefaultReturn(Span { lo: 10, hi: 10 }) },
        body: body(vec![Stmt { expr: call, semi: None }], span_of(source, "{")),
    }
}

#[test]
fn scenario_insert_events_resource() {
    let source = "fn setup() {\n    app.insert_resource(Events::<MyEvent>::default())\n}\n";
    let arg_span = span_of(source, "Events::<MyEvent>::default()");
    let arg = Expr {
        kind: ExprKind::Call { callee: Box::new(leaf(unit(arg_span), arg_span)), args: Vec::new() },
        ty: events_of(source, span_of(source, "MyEvent"), arg_span),
        span: arg_span,
    };
    let method_span = span_of(source, "insert_resource(Events::<MyEvent>::default())");
    let call = method_call(
        "insert_resource",
        Vec::new(),
        leaf(reference(app_ty(span_of(source, "app")), true, span_of(source, "app")), span_of(source, "app")),
        vec![arg],
        span_of(source, "app.insert_resource(Events::<MyEvent>::default())"),
        method_span,
        unit(method_span),
    );
    let diags = run_all(source, vec![setup_fn(source, call)]);
    assert_eq!(diags.len(), 1);
    let d = &diags[0];
    assert_eq!(d.lint, "bevy::insert_event_resource");
    assert_eq!(d.span, method_span);
    assert_eq!(d.message, "called `App::insert_resource(Events<T>)` instead of `App::add_event::<T>()`");
    assert_eq!(d.suggestions.len(), 1);
    assert_eq!(d.suggestions[0].replacement, "add_event::<MyEvent>()");
    assert_eq!(d.suggestions[0].applicability, Applicability::MachineApplicable);
}

#[test]
fn init_events_resource_with_unrecoverable_text() {
    let source = "fn setup() {\n    app.init_resource::<Events<MyEvent>>()\n}\n";
    // The event type's span lies outside the source: its text cannot be recovered.
    let events = events_of(source, Span { lo: 500, hi: 507 }, span_of(source, "Events<MyEvent>"));
    let method_span = span_of(source, "init_resource::<Events<MyEvent>>()");
    let call = method_call(
        "init_resource",
        vec![GenericArg::Type(events)],
        leaf(app_ty(span_of(source, "app")), span_of(source, "app")),
        Vec::new(),
        span_of(source, "app.init_resource::<Events<MyEvent>>()"),
        method_span,
        unit(method_span),
    );
    let diags = run_all(source, vec![setup_fn(source, call)]);
    assert_eq!(diags.len(), 1);
    assert_eq!(diags[0].message, "called `App::init_resource::<Events<T>>()` instead of `App::add_event::<T>()`");
    assert_eq!(diags[0].suggestions[0].replacement, "add_event::<T>()");
    assert_eq!(diags[0].suggestions[0].applicability, Applicability::HasPlaceholders);
}

#[test]
fn init_events_resource_recovers_event_text() {
    let source = "fn setup() {\n    app.init_resource::<Events<MyEvent>>()\n}\n";
    let events = events_of(source, span_of(source, "MyEvent"), span_of(source, "Events<MyEvent>"));
    let method_span = span_of(source, "init_resource::<Events<MyEvent>>()");
    let call = method_call(
        "init_resource",
        vec![GenericArg::Type(events)],
        leaf(app_ty(span_of(source, "app")), span_of(source, "app")),
        Vec::new(),
        span_of(source, "app.init_resource::<Events<MyEvent>>()"),
        method_span,
        unit(method_span),
    );
    let diags = run_all(source, vec![setup_fn(source, call)]);
    assert_eq!(diags.len(), 1);
    assert_eq!(diags[0].suggestions[0].replacement, "add_event::<MyEvent>()");
    assert_eq!(diags[0].suggestions[0].applicability, Applicability::MachineApplicable);
}

#[test]
fn insert_other_resource_is_not_flagged() {
    let source = "fn setup() {\n    app.insert_resource(Score(0))\n}\n";
    let arg_span = span_of(source, "Score(0)");
    let arg = leaf(adt(&["game", "Score"], Vec::new(), arg_span, Some(4)), arg_span);
    let method_span = span_of(source, "insert_resource(Score(0))");
    let call = method_call(
        "insert_resource",
        Vec::new(),
        leaf(app_ty(span_of(source, "app")), span_of(source, "app")),
        vec![arg],
        span_of(source, "app.insert_resource(Score(0))"),
        method_span,
        unit(method_span),
    );
    assert!(run_all(source, vec![setup_fn(source, call)]).is_empty());
}

#[test]
fn scenario_zero_sized_query_element() {
    let source = "fn system(query: Query<(&mut Position, MarkerTag)>) {}\n";
    let position = adt(&["game", "Position"], Vec::new(), span_of(source, "Position"), Some(12));
    let position_ref = reference(position, true, span_of(source, "&mut Position"));
    let marker = adt(&["game", "MarkerTag"], Vec::new(), span_of(source, "MarkerTag"), Some(0));
    let data = Ty {
        kind: TyKind::Tuple(vec![position_ref, marker]),
        span: span_of(source, "(&mut Position, MarkerTag)"),
        size: Some(8),
    };
    let query = adt(
        &QUERY,
        vec![
            GenericArg::Lifetime("'_".to_string()),
            GenericArg::Lifetime("'_".to_string()),
            GenericArg::Type(data),
            GenericArg::Type(unit(Span { lo: 0, hi: 0 })),
        ],
        span_of(source, "Query<(&mut Position, MarkerTag)>"),
        Some(16),
    );
    let item = FnItem {
        name: "system".to_string(),
        is_entry: false,
        decl: FnDecl { inputs: vec![query], output: FnRetTy::DefaultReturn(Span { lo: 51, hi: 51 }) },
        body: body(Vec::new(), span_of(source, "{}")),
    };
    let diags = run_all(source, vec![item]);
    assert_eq!(diags.len(), 1);
    assert_eq!(diags[0].lint, "bevy::zst_query");
    assert_eq!(diags[0].span, span_of(source, "MarkerTag"));
    assert_eq!(diags[0].help.as_deref(), Some("consider using a filter instead: `With<MarkerTag>`"));
}

#[test]
fn zero_sized_check_skips_unsized_elements() {
    let s = Span { lo: 0, hi: 0 };
    let generic = Ty { kind: TyKind::Param("T".to_string()), span: s, size: None };
    assert_eq!(bevy_lint::lints::zst_query::is_zero_sized(&generic), None);
    let marker = adt(&["game", "MarkerTag"], Vec::new(), s, Some(0));
    assert_eq!(bevy_lint::lints::zst_query::is_zero_sized(&marker), Some(true));
    let query = adt(
        &QUERY,
        vec![GenericArg::Lifetime("'w".to_string()), GenericArg::Lifetime("'s".to_string()), GenericArg::Type(generic)],
        s,
        None,
    );
    let mut out = Vec::new();
    bevy_lint::lints::zst_query::ZstQuery.check_ty("", &query, &mut out);
    assert!(out.is_empty());
}

#[test]
fn zst_help_names_the_type() {
    let help = bevy_lint::lints::zst_query::QueryKind::Query.help("Player");
    assert_eq!(help, "consider using a filter instead: `With<Player>`");
}

#[test]
fn main_run_on_app_reference_is_flagged_at_method() {
    let source = "fn main() {\n    let app = &mut app;\n    app.run()\n}\n";
    let call_span = span_of(source, "app.run()");
    let receiver_ty = reference(reference(app_ty(Span { lo: 0, hi: 0 }), true, Span { lo: 0, hi: 0 }), false, Span { lo: 0, hi: 0 });
    let call = method_call(
        "run",
        Vec::new(),
        leaf(receiver_ty, span_of(source, "app.run")),
        Vec::new(),
        call_span,
        span_of(source, "run()"),
        unit(call_span),
    );
    let item = FnItem {
        name: "main".to_string(),
        is_entry: true,
        decl: FnDecl { inputs: Vec::new(), output: FnRetTy::DefaultReturn(Span { lo: 9, hi: 9 }) },
        body: body(vec![Stmt { expr: call, semi: None }], span_of(source, "{")),
    };
    let diags = run_all(source, vec![item]);
    assert_eq!(diags.len(), 1);
    assert_eq!(diags[0].span, span_of(source, "run()"));
    // No `;` ends the call, so only the return type is suggested.
    assert_eq!(diags[0].suggestions.len(), 1);
}

#[test]
fn lifetime_first_argument_gives_placeholder() {
    let s = Span { lo: 0, hi: 0 };
    let events = adt(&EVENTS, vec![GenericArg::Lifetime("'a".to_string())], s, Some(24));
    let mut applicability = Applicability::MachineApplicable;
    let text = bevy_lint::lints::insert_event_resource::extract_ty_event_snippet("", &events, &mut applicability);
    assert_eq!(text, "T");
    assert_eq!(applicability, Applicability::HasPlaceholders);
}

#[test]
fn query_written_in_a_body_reaches_type_hooks() {
    let source = "fn setup() {\n    app.add_systems::<Query<(Marker,)>>()\n}\n";
    let marker = adt(&["game", "Marker"], Vec::new(), span_of(source, "Marker"), Some(0));
    let data = Ty { kind: TyKind::Tuple(vec![marker]), span: span_of(source, "(Marker,)"), size: Some(0) };
    let query = adt(
        &QUERY,
        vec![GenericArg::Lifetime("'_".to_string()), GenericArg::Lifetime("'_".to_string()), GenericArg::Type(data)],
        span_of(source, "Query<(Marker,)>"),
        None,
    );
    let method_span = span_of(source, "add_systems::<Query<(Marker,)>>()");
    let call = method_call(
        "add_systems",
        vec![GenericArg::Type(query)],
        leaf(app_ty(span_of(source, "app")), span_of(source, "app")),
        Vec::new(),
        span_of(source, "app.add_systems::<Query<(Marker,)>>()"),
        method_span,
        unit(method_span),
    );
    let diags = run_all(source, vec![setup_fn(source, call)]);
    assert_eq!(diags.len(), 1);
    assert_eq!(diags[0].lint, "bevy::zst_query");
    assert_eq!(diags[0].span, span_of(source, "Marker"));
    assert_eq!(diags[0].help.as_deref(), Some("consider using a filter instead: `With<Marker>`"));
}

#[test]
fn zero_sized_element_behind_references() {
    let source = "fn system(q: Query<(&Marker, &mut &Marker, Marker)>) {}\n";
    let marker_at = |lo: usize| adt(&["game", "Marker"], Vec::new(), Span { lo, hi: lo + 6 }, Some(0));
    let first = source.find("&Marker").unwrap();
    let second = source.find("&mut &Marker").unwrap();
    let third = source.find(", Marker)").unwrap() + 2;
    let e1 = reference(marker_at(first + 1), false, Span { lo: first, hi: first + 7 });
    let e2 = reference(reference(marker_at(second + 6), false, Span { lo: second + 5, hi: second + 12 }), true, Span { lo: second, hi: second + 12 });
    let e3 = marker_at(third);
    let data = Ty { kind: TyKind::Tuple(vec![e1, e2, e3]), span: span_of(source, "(&Marker, &mut &Marker, Marker)"), size: Some(16) };
    let query = adt(
        &QUERY,
        vec![GenericArg::Lifetime("'w".to_string()), GenericArg::Lifetime("'s".to_string()), GenericArg::Type(data)],
        span_of(source, "Query<(&Marker, &mut &Marker, Marker)>"),
        None,
    );
    let mut out = Vec::new();
    bevy_lint::lints::zst_query::ZstQuery.check_ty(source, &query, &mut out);
    assert_eq!(out.len(), 3);
    assert_eq!(out[0].span, Span { lo: first, hi: first + 7 });
    assert_eq!(out[1].span, Span { lo: second, hi: second + 12 });
    assert_eq!(out[2].span, Span { lo: third, hi: third + 6 });
    for d in &out {
        assert_eq!(d.help.as_deref(), Some("consider using a filter instead: `With<Marker>`"));
    }
}
