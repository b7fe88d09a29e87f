use caustic::openscad::interpreter::{
    lookup_module, openscad_interpret, process_call_arguments, unknown_module_message,
    InterpretError, Interpreter, Module, ModuleArgument, ModuleArgumentValue,
};
use caustic::openscad::parser::{
    openscad_parse, CallArgument, CallArgumentWithPosition, Expr, ExprWithPosition,
    StatementWithPosition,
};
use caustic::openscad::tokenizer::{openscad_tokenize_with_positions, Token, TokenWithPosition};
use caustic::openscad::{
    openscad_string_to_instances, openscad_tokens_to_instances, OpenscadError,
};

fn statements(text: &str) -> Vec<StatementWithPosition> {
    let result = openscad_parse(openscad_tokenize_with_positions(text));
    assert!(result.errors.is_empty());
    result.statements
}

fn numbers(arguments: &Vec<ModuleArgument>) -> Vec<f64> {
    arguments
        .iter()
        .map(|a| match a {
            ModuleArgument::Positional(ModuleArgumentValue::Number(n)) => n.parse().unwrap(),
        })
        .collect()
}

#[test]
fn test_cube_gives_an_instance() {
    let results = openscad_interpret(statements("cube(10);"));
    assert!(results.errors.is_empty());
    assert_eq!(results.trees.len(), 1);
    assert_eq!(results.trees[0].instance.module, Module::Cube);
    assert_eq!(numbers(&results.trees[0].instance.arguments), vec![10.0]);
    assert!(results.trees[0].children.is_empty());
}

#[test]
fn test_instances_come_in_the_order_of_the_statements() {
    let results = openscad_interpret(statements("cube(1); ; cube(2 3.5); cube();"));
    assert!(results.errors.is_empty());
    let found: Vec<Vec<f64>> =
        results.trees.iter().map(|t| numbers(&t.instance.arguments)).collect();
    assert_eq!(found, vec![vec![1.0], vec![2.0, 3.5], vec![]]);
}

#[test]
fn test_empty_statements_give_nothing() {
    let results = openscad_interpret(statements(";;;"));
    assert!(results.trees.is_empty());
    assert!(results.errors.is_empty());
    let results = openscad_interpret(vec![]);
    assert!(results.trees.is_empty());
    assert!(results.errors.is_empty());
}

#[test]
fn test_unknown_module() {
    let results = openscad_interpret(statements("cube(1);\nsphere(2); cube(3);"));
    assert_eq!(
        results.errors,
        vec![InterpretError {
            message: "Unknown module \"sphere\"".to_string(),
            start: 9,
            end: 15,
        }]
    );
    assert_eq!(results.trees.len(), 2);
    assert_eq!(numbers(&results.trees[1].instance.arguments), vec![3.0]);
}

#[test]
fn test_for_is_not_carried_out() {
    let tokens = vec![
        TokenWithPosition::new(Token::For, 0, 3),
        TokenWithPosition::new(Token::LeftParen, 3, 4),
        TokenWithPosition::new(Token::RightParen, 4, 5),
        TokenWithPosition::new(Token::Semicolon, 5, 6),
        TokenWithPosition::new(Token::Eof, 6, 6),
    ];
    let parsed = openscad_parse(tokens);
    assert!(parsed.errors.is_empty());
    let results = openscad_interpret(parsed.statements);
    assert!(results.trees.is_empty());
    assert_eq!(
        results.errors,
        vec![InterpretError { message: "Unsupported module for".to_string(), start: 0, end: 3 }]
    );
}

#[test]
fn test_lookup_module() {
    assert_eq!(lookup_module("cube"), Some(Module::Cube));
    assert_eq!(lookup_module("Cube"), None);
    assert_eq!(lookup_module("cub"), None);
    assert_eq!(lookup_module("cubes"), None);
    assert_eq!(lookup_module(""), None);
}

#[test]
fn test_process_call_arguments() {
    let arguments = vec![
        CallArgumentWithPosition::new(
            CallArgument::Expr { expr: ExprWithPosition::new(Expr::Number("1".to_string()), 0, 1) },
            0,
            1,
        ),
        CallArgumentWithPosition::new(
            CallArgument::Expr {
                expr: ExprWithPosition::new(Expr::Number("2e3".to_string()), 2, 5),
            },
            2,
            5,
        ),
    ];
    assert_eq!(numbers(&process_call_arguments(&arguments)), vec![1.0, 2000.0]);
    assert!(process_call_arguments(&vec![]).is_empty());
}

#[test]
fn test_interpreter_by_steps() {
    let mut interpreter = Interpreter::new();
    for statement in statements("cube(1); cube(2);") {
        interpreter.process_statement(&statement);
    }
    let results = interpreter.interpret(statements("cube(3);"));
    let found: Vec<Vec<f64>> =
        results.trees.iter().map(|t| numbers(&t.instance.arguments)).collect();
    assert_eq!(found, vec![vec![1.0], vec![2.0], vec![3.0]]);
}

#[test]
fn test_text_to_instances() {
    let trees = openscad_string_to_instances("cube(4); // one\n/* two */ cube(5 6);").unwrap();
    let found: Vec<Vec<f64>> = trees.iter().map(|t| numbers(&t.instance.arguments)).collect();
    assert_eq!(found, vec![vec![4.0], vec![5.0, 6.0]]);
    assert!(openscad_string_to_instances("").unwrap().is_empty());
}

#[test]
fn test_text_with_parse_errors() {
    match openscad_string_to_instances("cube(4) sphere(1);") {
        Err(OpenscadError::ParseErrors(errors)) => {
            assert_eq!(errors.len(), 1);
            assert_eq!(errors[0].message, "Expected Semicolon, found Identifier(\"sphere\")");
            assert_eq!((errors[0].start, errors[0].end), (8, 14));
        }
        other => panic!("unexpected {:?}", other),
    }
}

#[test]
fn test_text_with_interpret_errors() {
    match openscad_string_to_instances("cube(4); sphere(1); torus();") {
        Err(OpenscadError::InterpretErrors(errors)) => {
            let messages: Vec<&str> = errors.iter().map(|e| e.message.as_str()).collect();
            assert_eq!(messages, vec!["Unknown module \"sphere\"", "Unknown module \"torus\""]);
        }
        other => panic!("unexpected {:?}", other),
    }
}

#[test]
fn test_unknown_module_message() {
    assert_eq!(unknown_module_message("\"sphere\""), "Unknown module \"sphere\"");
    assert_eq!(unknown_module_message(""), "Unknown module ");
}

#[test]
fn test_tokens_to_instances() {
    let trees =
        openscad_tokens_to_instances(openscad_tokenize_with_positions("cube(1);")).unwrap();
    assert_eq!(trees.len(), 1);
    assert!(openscad_tokens_to_instances(vec![]).unwrap().is_empty());
    let tokens = vec![TokenWithPosition::new(Token::RightParen, 0, 1)];
    match openscad_tokens_to_instances(tokens) {
        Err(OpenscadError::ParseErrors(errors)) => {
            assert_eq!(errors[0].message, "Expected module name, found RightParen");
        }
        other => panic!("unexpected {:?}", other),
    }
}
