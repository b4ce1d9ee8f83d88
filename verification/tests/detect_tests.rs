use esdetect::ast::{AssignOpKind, BinOpKind, Node, NodeKind, Program, Span};
use esdetect::features::{EsVersion, FeaturesFlag};
use esdetect::policy::{is_enabled, Config, TargetSupport};
use esdetect::{detect, parse_target, DetectResult, ParseOptions};

fn node(kind: NodeKind, lo: u32, hi: u32, children: Vec<Node>) -> Node {
    Node { kind, span: Span { lo, hi }, children }
}

fn support_needing(needs: FeaturesFlag) -> TargetSupport {
    TargetSupport { is_any_target: false, needs_transform: needs }
}

fn no_needs() -> FeaturesFlag {
    FeaturesFlag {
        regenerator: false,
        function_name: false,
        new_target: false,
        object_super: false,
        typeof_symbol: false,
        for_of: false,
        classes: false,
        spread: false,
        class_properties: false,
        destructuring: false,
        computed_properties: false,
        shorthand_properties: false,
        sticky_regex: false,
        template_literals: false,
        parameters: false,
        arrow_functions: false,
        block_scoping: false,
        exponentiation_operator: false,
        class_static_block: false,
        private_methods: false,
        async_to_generator: false,
        logical_assignment_operators: false,
        nullish_coalescing: false,
        object_rest_spread: false,
        optional_chaining: false,
        optional_catch_binding: false,
    }
}

fn options(code: &str, target: Option<&str>) -> ParseOptions {
    ParseOptions {
        target: target.map(|t| t.to_string()),
        browserslist: String::new(),
        filename: "input.js".to_string(),
        code: code.to_string(),
    }
}

// The tree of `const a = 1 ?? 2`.
fn nullish_program() -> Program {
    Program {
        body: vec![node(
            NodeKind::VarDecl { block_scoped: true },
            0,
            16,
            vec![node(
                NodeKind::Declarator,
                6,
                16,
                vec![
                    node(NodeKind::IdentPat, 6, 7, vec![]),
                    node(
                        NodeKind::Bin { op: BinOpKind::NullishCoalescing },
                        10,
                        16,
                        vec![node(NodeKind::Other, 10, 11, vec![]), node(NodeKind::Other, 15, 16, vec![])],
                    ),
                ],
            )],
        )],
    }
}

#[test]
fn nullish_detected_for_old_targets() {
    let mut needs = no_needs();
    needs.nullish_coalescing = true;
    let r: DetectResult =
        detect(&options("const a = 1 ?? 2", None), &nullish_program(), &support_needing(needs)).unwrap();
    assert!(r.features.nullish_coalescing);
    assert!(r.es_versions.es2020);
    assert!(r.details.iter().any(|d| d.feature == "nullish_coalescing"));
}

#[test]
fn nullish_occurrence_span_is_exact() {
    let mut needs = no_needs();
    needs.nullish_coalescing = true;
    let r = detect(&options("const a = 1 ?? 2", None), &nullish_program(), &support_needing(needs)).unwrap();
    let d = r.details.iter().find(|d| d.feature == "nullish_coalescing").unwrap();
    assert_eq!(d.s, 10);
    assert_eq!(d.e, 16);
    assert_eq!((d.ls.l, d.ls.c), (1, 10));
    assert_eq!((d.le.l, d.le.c), (1, 16));
    let code = "const a = 1 ?? 2";
    assert_eq!(&code[d.s as usize..d.e as usize], "1 ?? 2");
}

#[test]
fn nullish_not_detected_for_supporting_targets() {
    let r = detect(&options("const a = 1 ?? 2", None), &nullish_program(), &support_needing(no_needs())).unwrap();
    assert!(!r.features.nullish_coalescing);
    assert!(!r.es_versions.es2020);
}

// The tree of `class A { static { x() } }`.
fn static_block_program() -> Program {
    Program {
        body: vec![node(
            NodeKind::ClassDecl,
            0,
            26,
            vec![node(NodeKind::StaticBlock, 10, 24, vec![node(NodeKind::Other, 19, 22, vec![])])],
        )],
    }
}

#[test]
fn static_block_follows_target_support() {
    // Latest target and native support: nothing to detect.
    let r = detect(&options("class A { static { x() } }", None), &static_block_program(), &support_needing(no_needs())).unwrap();
    assert!(!r.features.class_static_block);
    // Forced by a target set lacking support: detected.
    let mut needs = no_needs();
    needs.class_static_block = true;
    let r2 = detect(&options("class A { static { x() } }", None), &static_block_program(), &support_needing(needs)).unwrap();
    assert!(r2.features.class_static_block);
    assert!(r2.es_versions.es2022);
}

#[test]
fn explicit_target_ceiling_enables_detection() {
    // An explicit ceiling of es2015 turns everything newer on.
    let r = detect(&options("class A { static { x() } }", Some("es2015")), &static_block_program(), &support_needing(no_needs())).unwrap();
    assert!(r.features.class_static_block);
}

// The trees of `try { f() } catch { g() }` and `try { f() } catch (e) { g() }`.
fn catch_program(has_param: bool) -> Program {
    Program {
        body: vec![node(
            NodeKind::Other,
            0,
            25,
            vec![node(NodeKind::CatchClause { has_param }, 12, 25, vec![])],
        )],
    }
}

#[test]
fn optional_catch_binding_only_without_param() {
    let mut needs = no_needs();
    needs.optional_catch_binding = true;
    let r = detect(&options("try { f() } catch { g() }", None), &catch_program(false), &support_needing(needs)).unwrap();
    assert!(r.features.optional_catch_binding);
    assert!(r.es_versions.es2019);
    let r2 = detect(&options("try { f() } catch (e) { g() }", None), &catch_program(true), &support_needing(needs)).unwrap();
    assert!(!r2.features.optional_catch_binding);
}

// The tree of `const { a, ...rest } = obj`.
fn rest_program() -> Program {
    Program {
        body: vec![node(
            NodeKind::VarDecl { block_scoped: true },
            0,
            26,
            vec![node(
                NodeKind::Declarator,
                6,
                26,
                vec![
                    node(
                        NodeKind::ObjectPat,
                        6,
                        20,
                        vec![
                            node(NodeKind::Other, 8, 9, vec![]),
                            node(NodeKind::RestProp, 11, 18, vec![node(NodeKind::RestPat, 11, 18, vec![])]),
                        ],
                    ),
                    node(NodeKind::Other, 23, 26, vec![]),
                ],
            )],
        )],
    }
}

#[test]
fn rest_wins_over_destructuring() {
    let mut needs = no_needs();
    needs.object_rest_spread = true;
    needs.destructuring = true;
    let r = detect(&options("const { a, ...rest } = obj", None), &rest_program(), &support_needing(needs)).unwrap();
    assert!(r.features.object_rest_spread);
    assert!(!r.features.destructuring);
    assert!(r.es_versions.es2018);
    assert!(!r.es_versions.es2015 || r.features.block_scoping);
}

#[test]
fn plain_destructuring_detected() {
    // `const { a } = obj` — no rest property anywhere.
    let program = Program {
        body: vec![node(
            NodeKind::VarDecl { block_scoped: true },
            0,
            17,
            vec![node(
                NodeKind::Declarator,
                6,
                17,
                vec![
                    node(NodeKind::ObjectPat, 6, 11, vec![node(NodeKind::Other, 8, 9, vec![])]),
                    node(NodeKind::Other, 14, 17, vec![]),
                ],
            )],
        )],
    };
    let mut needs = no_needs();
    needs.destructuring = true;
    let r = detect(&options("const { a } = obj", None), &program, &support_needing(needs)).unwrap();
    assert!(r.features.destructuring);
    assert!(!r.features.object_rest_spread);
}

#[test]
fn detect_is_idempotent() {
    let mut needs = no_needs();
    needs.nullish_coalescing = true;
    needs.block_scoping = true;
    let o = options("const a = 1 ?? 2", None);
    let s = support_needing(needs);
    let r1 = detect(&o, &nullish_program(), &s).unwrap();
    let r2 = detect(&o, &nullish_program(), &s).unwrap();
    assert_eq!(r1.features, r2.features);
    assert_eq!(r1.es_versions, r2.es_versions);
    assert_eq!(r1.details.len(), r2.details.len());
    for (a, b) in r1.details.iter().zip(r2.details.iter()) {
        assert_eq!(a.feature, b.feature);
        assert_eq!((a.s, a.e), (b.s, b.e));
        assert_eq!((a.ls.l, a.ls.c, a.le.l, a.le.c), (b.ls.l, b.ls.c, b.le.l, b.le.c));
    }
}

#[test]
fn exclude_always_suppresses() {
    let mut c = Config {
        included: no_needs(),
        excluded: no_needs(),
        force_all_transforms: true,
        bugfixes: true,
    };
    c.excluded.nullish_coalescing = true;
    c.included.nullish_coalescing = true;
    let mut needs = no_needs();
    needs.nullish_coalescing = true;
    let t = TargetSupport { is_any_target: true, needs_transform: needs };
    assert!(!is_enabled(&c, &t, esdetect::features::Feature::NullishCoalescing));
}

#[test]
fn native_support_disables() {
    let c = Config {
        included: no_needs(),
        excluded: no_needs(),
        force_all_transforms: false,
        bugfixes: true,
    };
    let t = TargetSupport { is_any_target: false, needs_transform: no_needs() };
    assert!(!is_enabled(&c, &t, esdetect::features::Feature::ClassStaticBlock));
}

#[test]
fn parse_target_values() {
    assert_eq!(parse_target(&None), EsVersion::EsNext);
    assert_eq!(parse_target(&Some("es2015".to_string())), EsVersion::Es2015);
    assert_eq!(parse_target(&Some("es5".to_string())), EsVersion::Es5);
    assert_eq!(parse_target(&Some("weird".to_string())), EsVersion::EsNext);
}

#[test]
fn typeof_symbol_and_async_function() {
    // `typeof x === "symbol"` and an async function with a rest param:
    // the rest param cuts the async mark off.
    let bin = node(
        NodeKind::Bin { op: BinOpKind::EqEqEq },
        0,
        21,
        vec![
            node(NodeKind::TypeofExpr, 0, 8, vec![]),
            node(NodeKind::SymbolLit, 13, 21, vec![]),
        ],
    );
    let func = node(
        NodeKind::Function { is_async: true, is_generator: false },
        23,
        59,
        vec![node(NodeKind::Param, 40, 44, vec![node(NodeKind::RestPat, 40, 44, vec![])])],
    );
    let program = Program { body: vec![bin, func] };
    let mut needs = no_needs();
    needs.typeof_symbol = true;
    needs.async_to_generator = true;
    needs.parameters = true;
    needs.destructuring = true;
    let code = "typeof x === \"symbol\"; async function f(...a) { return 1; }";
    let r = detect(&options(code, None), &program, &support_needing(needs)).unwrap();
    assert!(r.features.typeof_symbol);
    assert!(r.features.parameters);
    // An async function is reported whatever its parameters look like.
    assert!(r.features.async_to_generator);
    assert!(r.es_versions.es2017);
    // A rest parameter is a non-identifier pattern.
    assert!(r.features.destructuring);
}

#[test]
fn single_feature_queries() {
    assert!(esdetect::nullish_coalescing(&nullish_program()));
    assert!(!esdetect::optional_chaining(&nullish_program()));
    assert!(esdetect::object_rest_spread(&rest_program()));
    assert!(esdetect::optional_catch_binding(&catch_program(false)));
    assert!(!esdetect::optional_catch_binding(&catch_program(true)));
}

#[test]
fn unicode_offsets_are_character_based() {
    // `const s = "é" ?? t` — the nullish span begins after a two-byte
    // character, so char offsets differ from byte offsets.
    let code = "const s = \"é\" ?? t";
    // byte positions: the string literal is bytes 10..14, `??` at 15.
    let program = Program {
        body: vec![node(
            NodeKind::VarDecl { block_scoped: true },
            0,
            19,
            vec![node(
                NodeKind::Declarator,
                6,
                19,
                vec![node(
                    NodeKind::Bin { op: BinOpKind::NullishCoalescing },
                    10,
                    19,
                    vec![node(NodeKind::Other, 10, 14, vec![]), node(NodeKind::Other, 18, 19, vec![])],
                )],
            )],
        )],
    };
    let mut needs = no_needs();
    needs.nullish_coalescing = true;
    let r = detect(&options(code, None), &program, &support_needing(needs)).unwrap();
    let d = r.details.iter().find(|d| d.feature == "nullish_coalescing").unwrap();
    assert_eq!(d.s, 10);
    assert_eq!(d.e, 18); // 19 bytes, one character is two bytes wide
}

#[test]
fn logical_assignment_sets_version_without_detail() {
    let program = Program {
        body: vec![node(NodeKind::Assign { op: AssignOpKind::NullishAssign }, 0, 7, vec![])],
    };
    let mut needs = no_needs();
    needs.logical_assignment_operators = true;
    let r = detect(&options("a ??= b", None), &program, &support_needing(needs)).unwrap();
    assert!(r.features.logical_assignment_operators);
    assert!(r.es_versions.es2021);
    assert!(r.details.is_empty());
}

#[test]
fn default_param_and_async_both_recorded() {
    // `async function g(x = 1) {}` — the default parameter and the async
    // mark are both reported, parameters first.
    let code = "async function g(x = 1) {}";
    let func = node(
        NodeKind::Function { is_async: true, is_generator: false },
        0,
        26,
        vec![node(NodeKind::Param, 17, 22, vec![node(NodeKind::AssignPat, 17, 22, vec![])])],
    );
    let program = Program { body: vec![func] };
    let mut needs = no_needs();
    needs.parameters = true;
    needs.async_to_generator = true;
    let r = detect(&options(code, None), &program, &support_needing(needs)).unwrap();
    assert!(r.features.parameters);
    assert!(r.features.async_to_generator);
    assert!(r.es_versions.es2015);
    assert!(r.es_versions.es2017);
    let tags: Vec<&str> = r.details.iter().map(|d| d.feature.as_str()).collect();
    assert_eq!(tags, vec!["parameters", "async_to_generator"]);
}

#[test]
fn generator_with_rest_param_recorded() {
    // `function* h(...xs) {}` — the generator mark is reported even
    // beside a rest parameter.
    let code = "function* h(...xs) {}";
    let func = node(
        NodeKind::Function { is_async: false, is_generator: true },
        0,
        21,
        vec![node(NodeKind::Param, 12, 17, vec![node(NodeKind::RestPat, 12, 17, vec![])])],
    );
    let program = Program { body: vec![func] };
    let mut needs = no_needs();
    needs.regenerator = true;
    let r = detect(&options(code, None), &program, &support_needing(needs)).unwrap();
    assert!(r.features.regenerator);
    assert!(r.es_versions.es2015);
    assert!(r.details.iter().any(|d| d.feature == "regenerator"));
}
