use caolc::cards::{Card, Function, Module};
use caolc::frontend::expr::convert_expression;
use caolc::frontend::{tree_to_program, tree_to_program_checked, FnCtx, LowerError, Stop};
use caolc::syntax::{SyntaxNode, SyntaxTree};

/// A named node.
fn node(kind: &str, text: &str, children: Vec<SyntaxNode>) -> SyntaxNode {
    SyntaxNode {
        kind: kind.to_string(),
        field: None,
        named: true,
        text: text.to_string(),
        start_byte: 0,
        end_byte: text.len(),
        children,
    }
}

/// An anonymous token.
fn token(text: &str) -> SyntaxNode {
    SyntaxNode { named: false, ..node(text, text, vec![]) }
}

/// `child` under field `name`.
fn field(name: &str, child: SyntaxNode) -> SyntaxNode {
    SyntaxNode { field: Some(name.to_string()), ..child }
}

fn ident(name: &str) -> SyntaxNode {
    node("identifier", name, vec![])
}

fn expression(inner: SyntaxNode) -> SyntaxNode {
    node("expression", "", vec![inner])
}

fn integer(text: &str) -> SyntaxNode {
    expression(node("integer", text, vec![]))
}

fn call(name: &str, args: Vec<SyntaxNode>) -> SyntaxNode {
    let mut children = vec![field("function", ident(name)), token("(")];
    children.extend(args);
    children.push(token(")"));
    expression(node("call_expression", "", children))
}

fn function_definition(name: &str, params: Vec<&str>, statements: Vec<SyntaxNode>) -> SyntaxNode {
    let params = node("parameter_list", "", params.into_iter().map(ident).collect());
    node(
        "function_definition",
        "",
        vec![token("fn"), ident(name), params, node("block", "", statements)],
    )
}

fn source_file(definitions: Vec<SyntaxNode>) -> SyntaxTree {
    SyntaxTree { root: node("source_file", "", definitions) }
}

fn global(name: &str, value: SyntaxNode) -> SyntaxNode {
    node(
        "global_var_statement",
        "",
        vec![token("global"), field("name", ident(name)), token("="), field("value", value)],
    )
}

fn string(content: &str) -> SyntaxNode {
    node(
        "string",
        "",
        vec![token("\""), node("string_content", content, vec![]), token("\"")],
    )
}

fn table_field(key: SyntaxNode, value: SyntaxNode) -> SyntaxNode {
    node("table_field", "", vec![field("key", key), token(":"), field("value", value)])
}

fn function(cards: Vec<Card>) -> Function {
    Function { arguments: vec![], cards }
}

fn module(functions: Vec<(&str, Function)>) -> Module {
    Module {
        submodules: vec![],
        functions: functions.into_iter().map(|(n, f)| (n.to_string(), f)).collect(),
        imports: vec![],
    }
}

fn read(name: &str) -> Card {
    Card::ReadVar(name.to_string())
}


fn statement(kind: &str, children: Vec<SyntaxNode>) -> SyntaxNode {
    node(kind, "", children)
}

fn lower_main(statements: Vec<SyntaxNode>) -> Result<Module, LowerError> {
    tree_to_program(&source_file(vec![function_definition("main", vec![], statements)]))
}

fn main_cards(statements: Vec<SyntaxNode>) -> Vec<Card> {
    let mut m = lower_main(statements).expect("lower");
    m.functions.remove(0).1.cards
}

fn table(fields: Vec<SyntaxNode>) -> SyntaxNode {
    expression(node("table_expression", "", fields))
}

fn boxed(c: Card) -> Box<Card> {
    Box::new(c)
}

fn s(text: &str) -> String {
    text.to_string()
}

#[test]
fn two_table_literals_in_one_function_get_distinct_temporaries() {
    let cards = main_cards(vec![
        global("a", table(vec![])),
        global("b", table(vec![])),
    ]);
    let names: Vec<String> = cards
        .iter()
        .map(|c| match c {
            Card::SetGlobalVar(_, v) => match &**v {
                Card::CompositeCard(_, inner) => match &inner[0] {
                    Card::SetVar(n, _) => n.clone(),
                    other => panic!("unexpected {other:?}"),
                },
                other => panic!("unexpected {other:?}"),
            },
            other => panic!("unexpected {other:?}"),
        })
        .collect();
    assert_eq!(names, vec![s("__caolc_table_tmp_0"), s("__caolc_table_tmp_1")]);
}

#[test]
fn temporaries_count_from_zero_in_each_function() {
    let tree = source_file(vec![
        function_definition("f", vec![], vec![global("a", table(vec![]))]),
        function_definition("g", vec![], vec![global("b", table(vec![]))]),
    ]);
    let m = tree_to_program(&tree).unwrap();
    for (_, f) in &m.functions {
        match &f.cards[0] {
            Card::SetGlobalVar(_, v) => match &**v {
                Card::CompositeCard(name, inner) => {
                    assert_eq!(name, "table_literal");
                    assert_eq!(inner[0], Card::SetVar(s("__caolc_table_tmp_0"), boxed(Card::CreateTable)));
                    assert_eq!(inner[1], Card::ReadVar(s("__caolc_table_tmp_0")));
                }
                other => panic!("unexpected {other:?}"),
            },
            other => panic!("unexpected {other:?}"),
        }
    }
}

#[test]
fn temporaries_keep_counting_inside_closures() {
    // fn main() { global a = #{}; global f = || #{}; }
    let closure = expression(node(
        "closure_expression",
        "",
        vec![
            field("parameters", node("parameter_list", "", vec![])),
            field("body", table(vec![])),
        ],
    ));
    let cards = main_cards(vec![global("a", table(vec![])), global("f", closure)]);
    match &cards[1] {
        Card::SetGlobalVar(_, v) => match &**v {
            Card::Closure(f) => match &f.cards[0] {
                Card::Return(r) => match &**r {
                    Card::CompositeCard(_, inner) => assert_eq!(
                        inner[0],
                        Card::SetVar(s("__caolc_table_tmp_1"), boxed(Card::CreateTable))
                    ),
                    other => panic!("unexpected {other:?}"),
                },
                other => panic!("unexpected {other:?}"),
            },
            other => panic!("unexpected {other:?}"),
        },
        other => panic!("unexpected {other:?}"),
    }
}

#[test]
fn arrow_closure_returns_its_value_and_block_closure_keeps_statements() {
    let arrow = expression(node(
        "closure_expression",
        "",
        vec![
            field("parameters", node("parameter_list", "", vec![ident("x")])),
            field("body", expression(ident("x"))),
        ],
    ));
    let block = expression(node(
        "closure_expression",
        "",
        vec![
            field("parameters", node("parameter_list", "", vec![ident("a"), ident("b")])),
            field(
                "body",
                node("block", "", vec![statement("expression_statement", vec![integer("1")])]),
            ),
        ],
    ));
    let cards = main_cards(vec![global("f", arrow), global("g", block)]);
    assert_eq!(
        cards,
        vec![
            Card::SetGlobalVar(
                s("f"),
                boxed(Card::Closure(Box::new(Function {
                    arguments: vec![s("x")],
                    cards: vec![Card::Return(boxed(read("x")))],
                })))
            ),
            Card::SetGlobalVar(
                s("g"),
                boxed(Card::Closure(Box::new(Function {
                    arguments: vec![s("a"), s("b")],
                    cards: vec![Card::ScalarInt(1)],
                })))
            ),
        ]
    );
}

fn binary(op: &str, l: SyntaxNode, r: SyntaxNode) -> SyntaxNode {
    expression(node(
        "binary_expression",
        "",
        vec![field("left", l), field("operator", token(op)), field("right", r)],
    ))
}

#[test]
fn binary_operators_map_to_their_cards() {
    let ops = ["+", "-", "*", "/", "<", "<=", "==", "!="];
    let statements = ops
        .iter()
        .map(|op| statement("expression_statement", vec![binary(op, integer("1"), integer("2"))]))
        .collect();
    let cards = main_cards(statements);
    let (a, b) = (|| boxed(Card::ScalarInt(1)), || boxed(Card::ScalarInt(2)));
    assert_eq!(
        cards,
        vec![
            Card::Add(a(), b()),
            Card::Sub(a(), b()),
            Card::Mul(a(), b()),
            Card::Div(a(), b()),
            Card::Less(a(), b()),
            Card::LessOrEq(a(), b()),
            Card::Equals(a(), b()),
            Card::NotEquals(a(), b()),
        ]
    );
}

#[test]
fn if_with_and_without_else() {
    let block = |v: &str| node("expression_block", "", vec![integer(v)]);
    let with_else = expression(node(
        "if_expression",
        "",
        vec![
            field("condition", integer("1")),
            field("consequence", block("2")),
            field("alternative", block("3")),
        ],
    ));
    let without = expression(node(
        "if_expression",
        "",
        vec![field("condition", integer("1")), field("consequence", block("2"))],
    ));
    let cards = main_cards(vec![
        statement("expression_statement", vec![with_else]),
        statement("expression_statement", vec![without]),
    ]);
    let i = |v| boxed(Card::ScalarInt(v));
    assert_eq!(cards, vec![Card::IfElse(i(1), i(2), i(3)), Card::IfTrue(i(1), i(2))]);
}

#[test]
fn arrays_strings_floats_and_variables() {
    let array = expression(node(
        "array_expression",
        "",
        vec![token("["), integer("1"), token(","), expression(ident("x")), token("]")],
    ));
    let escaped = expression(node(
        "string",
        "",
        vec![
            token("\""),
            node("string_content", "a", vec![]),
            node("escape_sequence", "\\n", vec![]),
            node("escape_sequence", "\\u{1F600}", vec![]),
            node("string_content", "b", vec![]),
            token("\""),
        ],
    ));
    let float = expression(node("float", "1.5e3", vec![]));
    let cards = main_cards(vec![
        statement("expression_statement", vec![array]),
        statement("expression_statement", vec![escaped]),
        statement("expression_statement", vec![float]),
    ]);
    assert_eq!(
        cards,
        vec![
            Card::Array(vec![Card::ScalarInt(1), read("x")]),
            Card::StringLiteral(s("a\n\u{1F600}b")),
            Card::ScalarFloat(s("1.5e3")),
        ]
    );
}

fn postfix(base: SyntaxNode, segments: Vec<SyntaxNode>) -> SyntaxNode {
    let mut children = vec![base];
    for seg in segments {
        children.push(token("."));
        children.push(seg);
    }
    node("postfix_expression", "", children)
}

#[test]
fn property_reads_and_writes() {
    // t.a[1];  t.a[1] = 5;  t.b.c = 6;
    let read_expr = expression(postfix(ident("t"), vec![ident("a"), integer("1")]));
    let set1 = statement(
        "set_property_statement",
        vec![
            field("target", postfix(ident("t"), vec![ident("a"), integer("1")])),
            token("="),
            field("value", integer("5")),
        ],
    );
    let set2 = statement(
        "set_property_statement",
        vec![
            field("target", postfix(ident("t"), vec![ident("b"), ident("c")])),
            token("="),
            field("value", integer("6")),
        ],
    );
    let cards = main_cards(vec![statement("expression_statement", vec![read_expr]), set1, set2]);
    let t_a = Card::GetProperty { table: boxed(read("t")), key: boxed(Card::StringLiteral(s("a"))) };
    let t_a2 = Card::GetProperty { table: boxed(read("t")), key: boxed(Card::StringLiteral(s("a"))) };
    let t_b = Card::GetProperty { table: boxed(read("t")), key: boxed(Card::StringLiteral(s("b"))) };
    assert_eq!(
        cards,
        vec![
            Card::Get(boxed(t_a), boxed(Card::ScalarInt(1))),
            Card::SetProperty { value: boxed(Card::ScalarInt(5)), table: boxed(t_a2), key: boxed(Card::ScalarInt(1)) },
            Card::SetProperty {
                value: boxed(Card::ScalarInt(6)),
                table: boxed(t_b),
                key: boxed(Card::StringLiteral(s("c"))),
            },
        ]
    );
}

#[test]
fn dotted_callee_and_arguments() {
    // math.max(1, x);
    let callee = postfix(ident("math"), vec![ident("max")]);
    let c = expression(node(
        "call_expression",
        "",
        vec![field("function", callee), token("("), integer("1"), token(","), expression(ident("x")), token(")")],
    ));
    let cards = main_cards(vec![statement("expression_statement", vec![c])]);
    assert_eq!(cards, vec![Card::CallNative(s("math.max"), vec![Card::ScalarInt(1), read("x")])]);
}

#[test]
fn loops_and_local_variables() {
    let body = |stmts: Vec<SyntaxNode>| node("block", "", stmts);
    let one = || statement("expression_statement", vec![integer("1")]);
    let while_one = statement(
        "while_statement",
        vec![field("condition", integer("1")), field("body", body(vec![one()]))],
    );
    let while_two = statement(
        "while_statement",
        vec![field("condition", integer("1")), field("body", body(vec![one(), one()]))],
    );
    let repeat = statement(
        "repeat_statement",
        vec![field("count", integer("3")), field("var", ident("i")), field("body", body(vec![one()]))],
    );
    let bindings = node("foreach_bindings", "", vec![field("k", ident("k")), field("v", ident("v"))]);
    let foreach = statement(
        "foreach_statement",
        vec![
            field("bindings", bindings),
            field("iterable", expression(ident("t"))),
            field("body", body(vec![])),
        ],
    );
    let local = statement(
        "local_var_statement",
        vec![field("name", ident("x")), field("value", integer("7"))],
    );
    let cards = main_cards(vec![while_one, while_two, repeat, foreach, local]);
    let i = |v| boxed(Card::ScalarInt(v));
    assert_eq!(
        cards,
        vec![
            Card::While(i(1), i(1)),
            Card::While(i(1), boxed(Card::CompositeCard(s("block"), vec![Card::ScalarInt(1), Card::ScalarInt(1)]))),
            Card::Repeat { count: i(3), var: Some(s("i")), body: i(1) },
            Card::ForEach {
                i: None,
                k: Some(s("k")),
                v: Some(s("v")),
                iterable: boxed(read("t")),
                body: boxed(Card::CompositeCard(s("block"), vec![])),
            },
            Card::SetVar(s("x"), i(7)),
        ]
    );
}

#[test]
fn modules_imports_and_parameters() {
    let import = node(
        "import_statement",
        "",
        vec![token("import"), field("path", node("import_path", "", vec![ident("a"), token("."), ident("b")]))],
    );
    let sub = node(
        "module_definition",
        "",
        vec![token("mod"), field("name", ident("m")), function_definition("f", vec!["x", "y"], vec![])],
    );
    let tree = source_file(vec![import, sub]);
    let m = tree_to_program(&tree).unwrap();
    assert_eq!(
        m,
        Module {
            submodules: vec![(
                s("m"),
                Module {
                    submodules: vec![],
                    functions: vec![(s("f"), Function { arguments: vec![s("x"), s("y")], cards: vec![] })],
                    imports: vec![],
                }
            )],
            functions: vec![],
            imports: vec![s("a.b")],
        }
    );
}

#[test]
fn calls_within_a_submodule_resolve_against_its_own_functions() {
    // mod m { fn f() { g(); } fn g() {} }  fn g() {}  — inside m, `g` is m's own
    let f = function_definition(
        "f",
        vec![],
        vec![statement("expression_statement", vec![call("g", vec![])])],
    );
    let sub = node(
        "module_definition",
        "",
        vec![field("name", ident("m")), f, function_definition("g", vec![], vec![])],
    );
    let top = function_definition(
        "h",
        vec![],
        vec![statement("expression_statement", vec![call("f", vec![])])],
    );
    let m = tree_to_program(&source_file(vec![sub, top])).unwrap();
    assert_eq!(m.submodules[0].1.functions[0].1.cards, vec![Card::CallFunction(s("g"), vec![])]);
    // `f` is not a function of the top-level module
    assert_eq!(m.functions[0].1.cards, vec![Card::CallNative(s("f"), vec![])]);
}

#[test]
fn unsupported_statement_is_reported_with_its_range() {
    let mut weird = statement("weird_statement", vec![]);
    weird.start_byte = 12;
    weird.end_byte = 20;
    let err = lower_main(vec![weird]).unwrap_err();
    assert_eq!(err, LowerError::UnsupportedNode { kind: s("weird_statement"), start: 12, end: 20 });
    assert_eq!(err.message(), "unsupported node kind `weird_statement` at byte 12..20");
}

#[test]
fn unsupported_top_level_node_is_reported() {
    let err = tree_to_program(&source_file(vec![node("comment", "// x", vec![])])).unwrap_err();
    assert_eq!(err, LowerError::UnsupportedNode { kind: s("comment"), start: 0, end: 4 });
}

#[test]
fn indexed_callee_is_a_dynamic_call() {
    let mut callee = postfix(ident("arr"), vec![integer("0")]);
    callee.start_byte = 3;
    callee.end_byte = 9;
    let c = expression(node("call_expression", "", vec![field("function", callee), token("("), token(")")]));
    let err = lower_main(vec![statement("expression_statement", vec![c])]).unwrap_err();
    assert_eq!(err, LowerError::DynamicCallUnsupported { start: 3, end: 9 });
    assert!(err.message().starts_with("dynamic call targets"));
    assert!(err.message().ends_with("at byte 3..9"));
}

#[test]
fn integer_out_of_range_is_a_bad_integer() {
    let err = lower_main(vec![global("x", integer("9223372036854775808"))]).unwrap_err();
    assert_eq!(err, LowerError::BadInteger { text: s("9223372036854775808") });
    assert_eq!(err.message(), "invalid integer literal `9223372036854775808`");
    let cards = main_cards(vec![global("x", integer("-9223372036854775808"))]);
    assert_eq!(cards, vec![Card::SetGlobalVar(s("x"), boxed(Card::ScalarInt(i64::MIN)))]);
}

#[test]
fn malformed_float_is_a_bad_float() {
    let err = lower_main(vec![global("x", expression(node("float", "1.2.3", vec![])))]).unwrap_err();
    assert_eq!(err, LowerError::BadFloat { text: s("1.2.3") });
    assert_eq!(err.message(), "invalid float literal `1.2.3`");
}

#[test]
fn first_error_stops_the_lowering() {
    let err = lower_main(vec![
        global("x", integer("99999999999999999999")),
        global("y", expression(node("float", "x", vec![]))),
    ])
    .unwrap_err();
    assert_eq!(err, LowerError::BadInteger { text: s("99999999999999999999") });
}

#[test]
fn unsupported_closure_body_is_reported() {
    let closure = expression(node(
        "closure_expression",
        "",
        vec![
            field("parameters", node("parameter_list", "", vec![])),
            field("body", node("weird", "", vec![])),
        ],
    ));
    let err = lower_main(vec![global("f", closure)]).unwrap_err();
    assert_eq!(err, LowerError::UnsupportedNode { kind: s("weird"), start: 0, end: 0 });
}

#[test]
fn checked_lowering_agrees_where_the_tree_has_the_grammar_shape() {
    let good = source_file(vec![function_definition("main", vec![], vec![global("x", integer("7"))])]);
    assert_eq!(tree_to_program_checked(&good), Some(tree_to_program(&good)));
    let failing = source_file(vec![node("comment", "// x", vec![])]);
    assert_eq!(tree_to_program_checked(&failing), Some(tree_to_program(&failing)));
}

#[test]
fn checked_lowering_has_no_answer_for_trees_out_of_the_grammar_shape() {
    // An `expression` node that wraps nothing.
    let empty_expression = node("expression", "", vec![]);
    let tree = source_file(vec![function_definition("main", vec![], vec![global("x", empty_expression)])]);
    assert_eq!(tree_to_program_checked(&tree), None);
    // A binary expression with an operator the grammar does not have.
    let weird_op = expression(node(
        "binary_expression",
        "",
        vec![field("left", integer("1")), field("operator", token("%")), field("right", integer("2"))],
    ));
    let tree = source_file(vec![function_definition("main", vec![], vec![global("x", weird_op)])]);
    assert_eq!(tree_to_program_checked(&tree), None);
    // A string literal holding an unknown escape.
    let bad_string = expression(node(
        "string",
        "",
        vec![token("\""), node("escape_sequence", "\\q", vec![]), token("\"")],
    ));
    let tree = source_file(vec![function_definition("main", vec![], vec![global("x", bad_string)])]);
    assert_eq!(tree_to_program_checked(&tree), None);
    // A function definition without a body.
    let headless = node("function_definition", "", vec![token("fn"), ident("main")]);
    assert_eq!(tree_to_program_checked(&source_file(vec![headless])), None);
}

#[test]
fn an_error_before_a_malformed_node_is_still_reported() {
    let tree = source_file(vec![function_definition(
        "main",
        vec![],
        vec![
            global("x", integer("99999999999999999999")),
            global("y", node("expression", "", vec![])),
        ],
    )]);
    assert_eq!(
        tree_to_program_checked(&tree),
        Some(Err(LowerError::BadInteger { text: s("99999999999999999999") })),
    );
}

#[test]
fn a_failed_lowering_leaves_the_counter_where_it_stopped() {
    let known: Vec<String> = vec![];
    let mut ctx = FnCtx::new(&known);
    let err = convert_expression(&expression(node("nil_literal", "nil", vec![])), &mut ctx);
    assert!(matches!(err, Err(Stop::Error(LowerError::UnsupportedNode { .. }))));
    assert_eq!(ctx.tmp_counter, 0);

    let mut ctx = FnCtx::new(&known);
    let callee = postfix(ident("arr"), vec![integer("0")]);
    let arg = table(vec![table_field(ident("a"), integer("1"))]);
    let c = expression(node("call_expression", "", vec![field("function", callee), token("("), arg, token(")")]));
    let err = convert_expression(&c, &mut ctx);
    assert!(matches!(err, Err(Stop::Error(LowerError::DynamicCallUnsupported { .. }))));
    assert_eq!(ctx.tmp_counter, 0);

    let mut ctx = FnCtx::new(&known);
    let items = vec![table(vec![table_field(ident("a"), integer("1"))]), expression(node("nil_literal", "nil", vec![]))];
    let err = convert_expression(&expression(node("array_expression", "", items)), &mut ctx);
    assert!(matches!(err, Err(Stop::Error(LowerError::UnsupportedNode { .. }))));
    assert_eq!(ctx.tmp_counter, 1);
}
