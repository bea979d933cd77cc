use compiler::ast::{LExp, Program, RExp, Stmt, Term};
use compiler::error::CompileError;
use compiler::parser::Parser;

fn term_shape(t: &Term) -> String {
    match t {
        Term::LExp(LExp::Ident(id)) => id.lexeme.clone(),
        Term::IntLit(lit) => lit.lexeme.clone(),
        Term::Neg(inner) => format!("Neg({})", term_shape(inner)),
        Term::Bracketed(e) => format!("Br({})", shape(e)),
    }
}

fn shape(e: &RExp) -> String {
    let (name, l, r) = match e {
        RExp::Term(t) => return term_shape(t),
        RExp::Add(l, r) => ("Add", l, r),
        RExp::Sub(l, r) => ("Sub", l, r),
        RExp::Mul(l, r) => ("Mul", l, r),
        RExp::Div(l, r) => ("Div", l, r),
        RExp::Equal(l, r) => ("Equal", l, r),
        RExp::NotEqual(l, r) => ("NotEqual", l, r),
        RExp::Less(l, r) => ("Less", l, r),
        RExp::LessEqual(l, r) => ("LessEqual", l, r),
        RExp::Greater(l, r) => ("Greater", l, r),
        RExp::GreaterEqual(l, r) => ("GreaterEqual", l, r),
    };
    format!("{}({}, {})", name, shape(l), shape(r))
}

fn stmt_shape(s: &Stmt) -> String {
    match s {
        Stmt::Declare(id) => format!("Declare({})", id.lexeme),
        Stmt::Initialize(id, e) => format!("Initialize({}, {})", id.lexeme, shape(e)),
        Stmt::Assign(LExp::Ident(id), e) => format!("Assign({}, {})", id.lexeme, shape(e)),
        Stmt::RExp(e) => format!("RExp({})", shape(e)),
        Stmt::Exit(e) => format!("Exit({})", shape(e)),
        Stmt::Block(b) => format!("Block[{}]", b.iter().map(stmt_shape).collect::<Vec<_>>().join("; ")),
        Stmt::If(c, b, alt) => format!(
            "If({}, [{}], {})",
            shape(c),
            b.iter().map(stmt_shape).collect::<Vec<_>>().join("; "),
            match alt {
                None => String::from("-"),
                Some(a) => stmt_shape(a),
            }
        ),
    }
}

fn program_shape(p: &Program) -> String {
    p.stmts.iter().map(stmt_shape).collect::<Vec<_>>().join("\n")
}

fn parse(src: &str) -> Result<Program, CompileError> {
    let mut parser = Parser::new(String::from(src));
    parser.parse_program()?;
    Ok(parser.program)
}

fn parse_expr(src: &str) -> String {
    let p = parse(src).unwrap();
    assert_eq!(p.stmts.len(), 1);
    stmt_shape(&p.stmts[0])
}

#[test]
fn multiplication_binds_tighter_than_addition_on_the_right() {
    assert_eq!(parse_expr("1 + 2 * 3"), "RExp(Add(1, Mul(2, 3)))");
}

#[test]
fn multiplication_binds_tighter_than_addition_on_the_left() {
    assert_eq!(parse_expr("2 * 3 + 1"), "RExp(Add(Mul(2, 3), 1))");
}

#[test]
fn subtraction_groups_to_the_left() {
    assert_eq!(parse_expr("10 - 3 - 2"), "RExp(Sub(Sub(10, 3), 2))");
}

#[test]
fn division_groups_to_the_left() {
    assert_eq!(parse_expr("8 / 4 / 2"), "RExp(Div(Div(8, 4), 2))");
}

#[test]
fn comparisons_group_to_the_right() {
    assert_eq!(parse_expr("1 < 2 < 3"), "RExp(Less(1, Less(2, 3)))");
    assert_eq!(parse_expr("1 == 2 != 3"), "RExp(Equal(1, NotEqual(2, 3)))");
}

#[test]
fn comparison_binds_loosest() {
    assert_eq!(parse_expr("a + 1 >= b * 2"), "RExp(GreaterEqual(Add(a, 1), Mul(b, 2)))");
}

#[test]
fn parentheses_and_negation() {
    assert_eq!(parse_expr("-(1 + 2) * -x"), "RExp(Mul(Neg(Br(Add(1, 2))), Neg(x)))");
}

#[test]
fn newlines_inside_parentheses_are_ignored() {
    assert_eq!(parse_expr("(1 +\n 2\n)"), "RExp(Br(Add(1, 2)))");
    let p = parse("let a = (1 +\n(2\n))\nexit a").unwrap();
    assert_eq!(program_shape(&p), "Initialize(a, Br(Add(1, Br(2))))\nExit(a)");
}

#[test]
fn statements_of_each_kind() {
    let src = "let x\nlet y = 2\nx = y + 1\n{\n  exit x\n}\nif x { y } else if y { x } else { }\n";
    let p = parse(src).unwrap();
    assert_eq!(
        program_shape(&p),
        "Declare(x)\nInitialize(y, 2)\nAssign(x, Add(y, 1))\nBlock[Exit(x)]\nIf(x, [RExp(y)], If(y, [RExp(x)], Block[]))"
    );
}

#[test]
fn blank_lines_and_empty_program() {
    assert_eq!(parse("").unwrap().stmts.len(), 0);
    assert_eq!(parse("\n\n\n").unwrap().stmts.len(), 0);
    assert_eq!(program_shape(&parse("\n\nexit 1\n\n").unwrap()), "Exit(1)");
}

#[test]
fn printed_program_parses_back_to_the_same_tree() {
    let src = "let a = 3\nlet b\nb = -a * (a - 1) / 2\nif a < b < 4 {\nexit a + b\n} else if a == 1 {\n{\nlet c = a\n}\n} else {\nexit 0\n}\na != b\n";
    let first = parse(src).unwrap();
    let printed = first.source_text();
    let second = parse(&printed).unwrap();
    assert_eq!(program_shape(&first), program_shape(&second));
    assert_eq!(printed, second.source_text());
}

#[test]
fn printed_expression_keeps_its_parentheses_only() {
    let p = parse("x = (1 + 2) * 3 - -4").unwrap();
    assert_eq!(p.source_text(), "x = (1 + 2) * 3 - -4\n");
}

#[test]
fn missing_identifier_after_let() {
    assert!(matches!(parse("let 5"), Err(CompileError::ExpectedIdent(_))));
}

#[test]
fn missing_expression_after_exit() {
    assert!(matches!(parse("exit"), Err(CompileError::ExpectedExpression(_))));
    assert!(matches!(parse("x = "), Err(CompileError::ExpectedExpression(_))));
    assert!(matches!(parse("1 +"), Err(CompileError::ExpectedExpression(_))));
}

#[test]
fn missing_closing_brace() {
    assert!(matches!(parse("{\nlet x"), Err(CompileError::ExpectedECurly(_))));
}

#[test]
fn missing_block_after_if_condition() {
    assert!(matches!(parse("if 1 exit 2"), Err(CompileError::ExpectedBlock(_))));
    assert!(matches!(parse("if 1 { } else exit 2"), Err(CompileError::ExpectedBlock(_))));
}

#[test]
fn two_statements_on_one_line() {
    assert!(matches!(parse("let x let y"), Err(CompileError::ExpectedNewline(_))));
}

#[test]
fn expression_as_assignment_target() {
    match parse("1 + x = 2") {
        Err(CompileError::RExpOnLHS(e)) => assert_eq!(shape(&e), "Add(1, x)"),
        other => panic!("unexpected: {:?}", other),
    }
}

#[test]
fn unclosed_parenthesis() {
    assert!(matches!(parse("(1"), Err(CompileError::UnexpectedToken(_))));
}

#[test]
fn stray_token_at_top_level() {
    assert!(matches!(parse("}"), Err(CompileError::UnexpectedToken(_))));
}

#[test]
fn illegal_token_stops_parsing() {
    assert!(matches!(parse("let a = 1b"), Err(CompileError::IllegalToken(_))));
}

#[test]
fn located_error_points_at_the_token() {
    match parse("let x\nlet 7") {
        Err(CompileError::ExpectedIdent(loc)) => {
            assert_eq!(loc.row, 2);
            assert_eq!(loc.col, 5);
        }
        other => panic!("unexpected: {:?}", other),
    }
}

#[test]
fn two_expressions_on_a_line_want_a_newline_at_the_second() {
    match parse("1 2") {
        Err(CompileError::ExpectedNewline(loc)) => assert_eq!((loc.row, loc.col), (1, 3)),
        other => panic!("unexpected: {:?}", other),
    }
}

#[test]
fn stray_brace_after_a_statement() {
    assert!(matches!(parse("1\n}"), Err(CompileError::UnexpectedToken(_))));
}

#[test]
fn else_followed_by_neither_if_nor_block() {
    match parse("if 1 {} else 5") {
        Err(CompileError::ExpectedBlock(loc)) => assert_eq!((loc.row, loc.col), (1, 14)),
        other => panic!("unexpected: {:?}", other),
    }
}

#[test]
fn statement_in_block_not_followed_by_newline() {
    match parse("{\n1 2\n}") {
        Err(CompileError::ExpectedECurly(loc)) => assert_eq!((loc.row, loc.col), (2, 3)),
        other => panic!("unexpected: {:?}", other),
    }
}

#[test]
fn declarations_and_initializations() {
    assert_eq!(program_shape(&parse("let x").unwrap()), "Declare(x)");
    assert_eq!(program_shape(&parse("let x = 1").unwrap()), "Initialize(x, 1)");
}

#[test]
fn else_if_chain_tree() {
    assert_eq!(
        program_shape(&parse("if 1 {} else if 0 {} else {}").unwrap()),
        "If(1, [], If(0, [], Block[]))"
    );
}

#[test]
fn newline_mode_comes_back_after_parentheses() {
    assert_eq!(
        program_shape(&parse("exit (1 +\n2)\nexit 3").unwrap()),
        "Exit(Br(Add(1, 2)))\nExit(3)"
    );
}
