use caolc::cards::{Card, Function, Module};
use caolc::frontend::tree_to_program;
use caolc::syntax::{SyntaxNode, SyntaxTree};

/// A named node.
fn node(kind: &str, text: &str, children: Vec<SyntaxNode>) -> SyntaxNode {
    SyntaxNode {
        kind: kind.to_string(),
        field: None,
        named: true,
        text: text.to_string(),
        start_byte: 0,
        end_byte: text.len(),
        children,
    }
}

/// An anonymous token.
fn token(text: &str) -> SyntaxNode {
    SyntaxNode { named: false, ..node(text, text, vec![]) }
}

/// `child` under field `name`.
fn field(name: &str, child: SyntaxNode) -> SyntaxNode {
    SyntaxNode { field: Some(name.to_string()), ..child }
}

fn ident(name: &str) -> SyntaxNode {
    node("identifier", name, vec![])
}

fn expression(inner: SyntaxNode) -> SyntaxNode {
    node("expression", "", vec![inner])
}

fn integer(text: &str) -> SyntaxNode {
    expression(node("integer", text, vec![]))
}

fn call(name: &str, args: Vec<SyntaxNode>) -> SyntaxNode {
    let mut children = vec![field("function", ident(name)), token("(")];
    children.extend(args);
    children.push(token(")"));
    expression(node("call_expression", "", children))
}

fn function_definition(name: &str, params: Vec<&str>, statements: Vec<SyntaxNode>) -> SyntaxNode {
    let params = node("parameter_list", "", params.into_iter().map(ident).collect());
    node(
        "function_definition",
        "",
        vec![token("fn"), ident(name), params, node("block", "", statements)],
    )
}

fn source_file(definitions: Vec<SyntaxNode>) -> SyntaxTree {
    SyntaxTree { root: node("source_file", "", definitions) }
}

fn global(name: &str, value: SyntaxNode) -> SyntaxNode {
    node(
        "global_var_statement",
        "",
        vec![token("global"), field("name", ident(name)), token("="), field("value", value)],
    )
}

fn string(content: &str) -> SyntaxNode {
    node(
        "string",
        "",
        vec![token("\""), node("string_content", content, vec![]), token("\"")],
    )
}

fn table_field(key: SyntaxNode, value: SyntaxNode) -> SyntaxNode {
    node("table_field", "", vec![field("key", key), token(":"), field("value", value)])
}

fn function(cards: Vec<Card>) -> Function {
    Function { arguments: vec![], cards }
}

fn module(functions: Vec<(&str, Function)>) -> Module {
    Module {
        submodules: vec![],
        functions: functions.into_iter().map(|(n, f)| (n.to_string(), f)).collect(),
        imports: vec![],
    }
}

fn read(name: &str) -> Card {
    Card::ReadVar(name.to_string())
}

// fn main() {
//     global t = #{a: 1, "b-c": 2};
// }
#[test]
fn table_literal_desugars_and_compiles() {
    let table = expression(node(
        "table_expression",
        "",
        vec![
            token("#{"),
            table_field(ident("a"), integer("1")),
            token(","),
            table_field(string("b-c"), integer("2")),
            token("}"),
        ],
    ));
    let tree = source_file(vec![function_definition("main", vec![], vec![global("t", table)])]);
    let module_ = tree_to_program(&tree).expect("lower");

    let tmp = "__caolc_table_tmp_0";
    let expected = Card::CompositeCard(
        "table_literal".to_string(),
        vec![
            Card::SetVar(tmp.to_string(), Box::new(Card::CreateTable)),
            Card::SetProperty {
                value: Box::new(Card::ScalarInt(1)),
                table: Box::new(read(tmp)),
                key: Box::new(Card::StringLiteral("a".to_string())),
            },
            Card::SetProperty {
                value: Box::new(Card::ScalarInt(2)),
                table: Box::new(read(tmp)),
                key: Box::new(Card::StringLiteral("b-c".to_string())),
            },
            read(tmp),
        ],
    );
    assert_eq!(
        module_,
        module(vec![(
            "main",
            function(vec![Card::SetGlobalVar("t".to_string(), Box::new(expected))])
        )])
    );
}

// fn main() {
//     global result = helper();
// }
// fn helper() {
//     return 42;
// }
#[test]
fn known_callee_becomes_static_call() {
    let tree = source_file(vec![
        function_definition("main", vec![], vec![global("result", call("helper", vec![]))]),
        function_definition(
            "helper",
            vec![],
            vec![node("return_statement", "", vec![token("return"), integer("42"), token(";")])],
        ),
    ]);
    let module_ = tree_to_program(&tree).expect("lower");
    assert_eq!(
        module_,
        module(vec![
            (
                "main",
                function(vec![Card::SetGlobalVar(
                    "result".to_string(),
                    Box::new(Card::CallFunction("helper".to_string(), vec![]))
                )])
            ),
            ("helper", function(vec![Card::Return(Box::new(Card::ScalarInt(42)))])),
        ])
    );
}

// fn main() {
//     mystery();
// }
#[test]
fn unknown_callee_becomes_native_call_and_fails_without_registration() {
    let tree = source_file(vec![function_definition(
        "main",
        vec![],
        vec![node("expression_statement", "", vec![call("mystery", vec![]), token(";")])],
    )]);
    let module_ = tree_to_program(&tree).expect("lower");
    assert_eq!(
        module_,
        module(vec![("main", function(vec![Card::CallNative("mystery".to_string(), vec![])]))])
    );
}
