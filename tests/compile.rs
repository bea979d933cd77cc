use compiler::ast::Program;
use compiler::codegen::Asm;
use compiler::decorator::StringDecorator;
use compiler::error::CompileError;
use compiler::parser::Parser;
use compiler::scope::{Env, SymbolBuilder};
use compiler::semantic::analyze;

fn parse(src: &str) -> Program {
    let mut parser = Parser::new(String::from(src));
    parser.parse_program().unwrap();
    parser.program
}

fn generate(p: &Program) -> String {
    let mut generator = Asm::new();
    generator.gen(&p.stmts).unwrap();
    generator.instructions()
}

/// Asserts that `parts` occur in `text` in this order.
fn in_order(text: &str, parts: &[&str]) {
    let mut at = 0;
    for part in parts {
        match text[at..].find(part) {
            Some(i) => at += i + part.len(),
            None => panic!("{:?} not found after byte {} in:\n{}", part, at, text),
        }
    }
}

#[test]
fn labels_count_up_per_name() {
    let mut d = StringDecorator::new();
    assert_eq!(d.decorate("end_if"), "end_if_0");
    assert_eq!(d.decorate_and_increment(String::from("end_if")), "end_if_0");
    assert_eq!(d.decorate_and_increment(String::from("end_if")), "end_if_1");
    assert_eq!(d.decorate_and_increment(String::from("else_start")), "else_start_0");
    assert_eq!(d.index("end_if"), 2);
    d.increment(String::from("x"));
    assert_eq!(d.decorate("x"), "x_1");
    assert_eq!(d.decorate("end_if"), "end_if_2");
}

#[test]
fn label_counters_pass_ten() {
    let mut d = StringDecorator::new();
    for _ in 0..12 {
        d.increment(String::from("l"));
    }
    assert_eq!(d.decorate("l"), "l_12");
}

#[test]
fn symbol_builder_collects_fields() {
    let sym = SymbolBuilder::new()
        .decorated_lexeme(String::from("a_1"))
        .size_bytes(8)
        .rbp_offset(16)
        .initialized(true)
        .build();
    assert_eq!(sym.decorated_lexeme, "a_1");
    assert_eq!(sym.size_bytes, 8);
    assert_eq!(sym.rbp_offset, 16);
    assert!(sym.initialized);
}

#[test]
fn shadowing_in_a_block_resolves_to_the_inner_binding() {
    let p = parse("let x\n{\nlet x = 5\nx\n}\n");
    let env = analyze(&p).unwrap();
    let outer = env.get_symbol(&String::from("x")).unwrap();
    assert_eq!(outer.decorated_lexeme, "x_1");
    assert!(!outer.initialized);
    assert_eq!(outer.rbp_offset, 8);
    let text = generate(&p);
    in_order(&text, &["; let x_1", "sub rsp, 8", "; let x_2 = 5", "mov qword [rbp-16], rax", "; x_2", "push qword [rbp-16]"]);
}

#[test]
fn redeclaration_in_one_scope_starts_a_new_generation() {
    let p = parse("let x = 1\nlet x = x + 1\nexit x");
    let env = analyze(&p).unwrap();
    let sym = env.get_symbol(&String::from("x")).unwrap();
    assert_eq!(sym.decorated_lexeme, "x_2");
    assert_eq!(sym.rbp_offset, 16);
    assert!(sym.initialized);
    let text = generate(&p);
    in_order(&text, &["; let x_1 = 1", "; x_1", "push qword [rbp-8]", "; let x_2 = x + 1", "mov qword [rbp-16], rax", "; x_2", "push qword [rbp-16]"]);
}

#[test]
fn assignment_to_undeclared_name_fails() {
    match analyze(&parse("x = 5")) {
        Err(CompileError::UndeclaredIdent(id)) => assert_eq!(id.lexeme, "x"),
        other => panic!("unexpected: {:?}", other.map(|_| ())),
    }
}

#[test]
fn read_of_uninitialized_name_fails() {
    match analyze(&parse("let x\nexit x + 1")) {
        Err(CompileError::UninitializedIdent(id)) => assert_eq!(id.lexeme, "x"),
        other => panic!("unexpected: {:?}", other.map(|_| ())),
    }
}

#[test]
fn self_reference_in_initializer_fails() {
    assert!(matches!(analyze(&parse("let y = y")), Err(CompileError::UndeclaredIdent(_))));
}

#[test]
fn assignment_initializes() {
    let env = analyze(&parse("let x\nx = 2\nexit x")).unwrap();
    assert!(env.get_symbol(&String::from("x")).unwrap().initialized);
}

#[test]
fn block_bindings_end_with_the_block() {
    assert!(matches!(analyze(&parse("{\nlet z = 1\n}\nexit z")), Err(CompileError::UndeclaredIdent(_))));
}

#[test]
fn first_error_in_text_order_wins() {
    match analyze(&parse("exit a + b")) {
        Err(CompileError::UndeclaredIdent(id)) => assert_eq!(id.lexeme, "a"),
        other => panic!("unexpected: {:?}", other.map(|_| ())),
    }
}

#[test]
fn generator_reports_undeclared_names() {
    let p = parse("exit q");
    let mut generator = Asm::new();
    assert!(matches!(generator.gen(&p.stmts), Err(CompileError::UndeclaredIdent(_))));
}

#[test]
fn exit_program_text_is_exact() {
    let text = generate(&parse("exit 3"));
    let expected = "_start:\n    mov rbp, rsp\n    ; {\n    \n    ; 3\n    mov rax, 3\n    push rax\n    \n    ; exit 3\n    pop rax\n    mov rcx, rax\n    call ExitProcess\n    ; }\n    \n    ; exit 0\n    xor rcx, rcx\n    call ExitProcess\n";
    assert_eq!(text, expected);
}

#[test]
fn binary_operators_lower_to_their_instructions() {
    let text = generate(&parse("exit 7 / 2"));
    in_order(&text, &["mov rax, 7", "mov rax, 2", "; 7 / 2", "pop rbx", "pop rax", "xor rdx, rdx", "div rbx", "push rax"]);
    let text = generate(&parse("exit 1 >= 2"));
    in_order(&text, &["cmp rax, rbx", "setge al", "and rax, 255"]);
    let text = generate(&parse("exit -5"));
    in_order(&text, &["mov rax, 5", "push rax", "pop rax", "; -5", "neg rax", "push rax"]);
}

#[test]
fn expression_statement_leaves_the_stack_as_it_was() {
    let text = generate(&parse("1 + 2"));
    in_order(&text, &["; 1 + 2", "add rax, rbx", "push rax", "pop rax", "; }"]);
}

#[test]
fn generating_twice_gives_the_same_text() {
    let p = parse("let a = 1\nif a { exit 1 }\nif a { exit 2 } else { exit 3 }\n");
    let first = generate(&p);
    let second = generate(&p);
    assert_eq!(first, second);
    let mut generator = Asm::new();
    generator.gen(&p.stmts).unwrap();
    generator.gen(&p.stmts).unwrap();
    assert_eq!(generator.instructions(), first);
    in_order(&first, &["jz end_if_0", "end_if_0:", "jz else_start_0", "jmp else_end_0", "else_start_0:", "else_end_0:"]);
}

#[test]
fn else_if_chains_take_fresh_labels() {
    let text = generate(&parse("let a = 1\nif a { exit 1 } else if a { exit 2 } else { exit 3 }"));
    in_order(&text, &["jz else_start_0", "jmp else_end_0", "else_start_0:", "; else if {", "jz else_start_1", "jmp else_end_1", "else_start_1:", "; else {", "else_end_1:", "; }", "else_end_0:"]);
}

#[test]
fn end_to_end_scenario() {
    let src = "let a = 3\nlet b = 4\nif a < b {\n  exit a + b\n} else {\n  exit 0\n}\n";
    let p = parse(src);
    let env = analyze(&p).unwrap();
    let a = env.get_symbol(&String::from("a")).unwrap();
    let b = env.get_symbol(&String::from("b")).unwrap();
    assert_eq!(a.rbp_offset, 8);
    assert_eq!(b.rbp_offset, 16);
    let mut generator = Asm::new();
    generator.gen(&p.stmts).unwrap();
    let text = generator.instructions();
    in_order(
        &text,
        &[
            "; a_1", "push qword [rbp-8]", "; b_1", "push qword [rbp-16]", "; a < b", "pop rbx", "pop rax",
            "cmp rax, rbx", "setl al", "and rax, 255", "push rax", "; a < b == 0", "pop rax",
            "test rax, rax", "jz else_start_0", "; if", "push qword [rbp-8]", "push qword [rbp-16]",
            "add rax, rbx", "; exit a + b", "pop rax", "mov rcx, rax", "call ExitProcess",
            "jmp else_end_0", "else_start_0:", "; else {", "mov rax, 0", "; exit 0", "pop rax",
            "mov rcx, rax", "call ExitProcess", "else_end_0:", "; exit 0", "xor rcx, rcx",
            "call ExitProcess",
        ],
    );
    let listing = generator.listing();
    assert!(listing.starts_with("default rel\nglobal _start\nextern ExitProcess\nsection .text\n_start:\n"));
}

#[test]
fn fresh_environment_has_no_bindings() {
    let env = Env::new();
    assert!(env.get_symbol(&String::from("a")).is_none());
}
