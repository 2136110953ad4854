use sigmac::ast::BinOp;
use sigmac::ast::Expression;
use sigmac::ast::Statement;
use sigmac::ast::Type;
use sigmac::chunker::chunker;
use sigmac::parser::parse;
use sigmac::tokenizer::tokenizer;

fn parse_src(src: &str) -> Result<sigmac::ast::Program, String> {
    parse(tokenizer(chunker(src)))
}

#[test]
fn parses_a_minimal_program() {
    let program = parse_src("bussin based sigma() { yeet 1; }").unwrap();
    assert_eq!(program.functions.len(), 1);
    let f = &program.functions[0];
    assert_eq!(f.name, "sigma");
    assert_eq!(f.return_type, Type::Based);
    assert!(f.parameters.is_empty());
    assert_eq!(
        f.body,
        vec![Statement::Return { expr: Some(Expression::Integer(1)) }]
    );
}

#[test]
fn multiplicative_binds_tighter_than_additive() {
    let program = parse_src("bussin based sigma() { based x slay 2 + 3 * 4; yeet x; }").unwrap();
    let expected = Expression::BinOp {
        left: Box::new(Expression::Integer(2)),
        op: BinOp::Add,
        right: Box::new(Expression::BinOp {
            left: Box::new(Expression::Integer(3)),
            op: BinOp::Mul,
            right: Box::new(Expression::Integer(4)),
        }),
    };
    match &program.functions[0].body[0] {
        Statement::VarDecl { var_type, name, value } => {
            assert_eq!(*var_type, Type::Based);
            assert_eq!(name, "x");
            assert_eq!(*value, expected);
        }
        other => panic!("expected a declaration, got {:?}", other),
    }
}

#[test]
fn parentheses_override_precedence() {
    let program = parse_src("bussin based sigma() { yeet (2 + 3) * 4; }").unwrap();
    let expected = Expression::BinOp {
        left: Box::new(Expression::BinOp {
            left: Box::new(Expression::Integer(2)),
            op: BinOp::Add,
            right: Box::new(Expression::Integer(3)),
        }),
        op: BinOp::Mul,
        right: Box::new(Expression::Integer(4)),
    };
    assert_eq!(
        program.functions[0].body[0],
        Statement::Return { expr: Some(expected) }
    );
}

#[test]
fn comparison_is_the_lowest_level() {
    let program = parse_src("bussin based sigma() { yeet 1 + 2 < 3 * 4; }").unwrap();
    match &program.functions[0].body[0] {
        Statement::Return { expr: Some(Expression::BinOp { op, .. }) } => {
            assert_eq!(*op, BinOp::Less);
        }
        other => panic!("expected a comparison, got {:?}", other),
    }
}

#[test]
fn integer_width_is_decided_at_parse_time() {
    let program =
        parse_src("bussin based sigma() { superBased a slay 3000000000; based b slay 2147483647; yeet b; }")
            .unwrap();
    match &program.functions[0].body[0] {
        Statement::VarDecl { value, .. } => assert_eq!(*value, Expression::Long(3000000000)),
        other => panic!("expected a declaration, got {:?}", other),
    }
    match &program.functions[0].body[1] {
        Statement::VarDecl { value, .. } => assert_eq!(*value, Expression::Integer(2147483647)),
        other => panic!("expected a declaration, got {:?}", other),
    }
}

#[test]
fn parses_parameters() {
    let program = parse_src("bussin based addup(based a, superBased b) { yeet a; } bussin based sigma() { yeet 0; }")
        .unwrap();
    let f = &program.functions[0];
    assert_eq!(f.parameters.len(), 2);
    assert_eq!(f.parameters[0].name, "a");
    assert_eq!(f.parameters[0].parameter_type, Type::Based);
    assert_eq!(f.parameters[1].name, "b");
    assert_eq!(f.parameters[1].parameter_type, Type::SuperBased);
}

#[test]
fn parses_if_with_else() {
    let program =
        parse_src("bussin ghost sigma() { ong 1 { flex 1; } nah { flex 2; } }").unwrap();
    match &program.functions[0].body[0] {
        Statement::If { condition, then_body, else_body } => {
            assert_eq!(*condition, Expression::Integer(1));
            assert_eq!(then_body.len(), 1);
            assert_eq!(else_body.as_ref().unwrap().len(), 1);
        }
        other => panic!("expected an if, got {:?}", other),
    }
}

#[test]
fn parses_if_without_else() {
    let program = parse_src("bussin ghost sigma() { ong 1 { flex 1; } }").unwrap();
    match &program.functions[0].body[0] {
        Statement::If { else_body, .. } => assert!(else_body.is_none()),
        other => panic!("expected an if, got {:?}", other),
    }
}

#[test]
fn parses_while_and_break() {
    let program = parse_src("bussin ghost sigma() { mewing 1 { ohio; } }").unwrap();
    match &program.functions[0].body[0] {
        Statement::While { condition, body } => {
            assert_eq!(*condition, Expression::Integer(1));
            assert_eq!(*body, vec![Statement::Break]);
        }
        other => panic!("expected a while, got {:?}", other),
    }
}

#[test]
fn parses_for_with_init_condition_increment() {
    let program = parse_src(
        "bussin ghost sigma() { sixSeven based i slay 0; i < 3; i slay i + 1; { flex i; } }",
    )
    .unwrap();
    match &program.functions[0].body[0] {
        Statement::For { init, condition, increment, body } => {
            assert!(matches!(**init, Statement::VarDecl { .. }));
            assert!(matches!(condition, Expression::BinOp { .. }));
            assert!(matches!(**increment, Statement::Assignment { .. }));
            assert_eq!(body.len(), 1);
        }
        other => panic!("expected a for, got {:?}", other),
    }
}

#[test]
fn missing_main_is_an_error() {
    let r = parse_src("bussin based helper() { yeet 1; }");
    assert_eq!(
        r.unwrap_err(),
        "Program must have at least one 'bussin sigma()' function"
    );
}

#[test]
fn top_level_must_be_a_function() {
    let r = parse_src("based x slay 1;");
    assert_eq!(r.unwrap_err(), "Expected function declaration");
}

#[test]
fn missing_semicolon_is_an_error() {
    let r = parse_src("bussin based sigma() { yeet 1 }");
    assert_eq!(r.unwrap_err(), "Expected ';' after return statement");
}

#[test]
fn unexpected_token_in_body_is_an_error() {
    let r = parse_src("bussin based sigma() { skibidi; }");
    assert_eq!(r.unwrap_err(), "Unexpected token in body: skibidi");
}

#[test]
fn truncated_input_is_an_error() {
    let r = parse_src("bussin based sigma() { yeet 1;");
    assert_eq!(r.unwrap_err(), "Unexpected end of input");
}

#[test]
fn missing_expression_is_an_error() {
    let r = parse_src("bussin based sigma() { based x slay ; }");
    assert_eq!(r.unwrap_err(), "Expected expression, found ;");
}

#[test]
fn parsing_twice_is_identical() {
    let src = "bussin based sigma(based n) { ong n < 2 { yeet n; } yeet n * 2; }";
    let t1 = tokenizer(chunker(src));
    let t2 = tokenizer(chunker(src));
    let p1 = parse(t1);
    let p2 = parse(t2);
    assert_eq!(p1, p2);
}
