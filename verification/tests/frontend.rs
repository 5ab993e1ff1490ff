use whitespace_compiler::ast::parse;
use whitespace_compiler::ast::Statement;
use whitespace_compiler::lexer::Lexer;
use whitespace_compiler::lexer::Token;
use whitespace_compiler::transpiler::debug::DebugCodeBlock;
use whitespace_compiler::transpiler::program_fits;
use whitespace_compiler::transpiler::transpile;
use whitespace_compiler::transpiler::CodeOutput;
use whitespace_compiler::util::unbleach;

#[test]
fn tokenize_declaration() {
    let mut lexer = Lexer::new("int m;");
    let tokens = lexer.tokenize();
    assert_eq!(tokens.len(), 4);
    assert!(matches!(tokens[0].token, Token::Int));
    assert!(matches!(tokens[1].token, Token::Identifier(ref id) if id == "m"));
    assert!(matches!(tokens[2].token, Token::Semicolon));
    assert!(matches!(tokens[3].token, Token::EOF));
}

#[test]
fn tokenize_tracks_lines_and_columns() {
    let mut lexer = Lexer::new("int m;\nm = -42;");
    let tokens = lexer.tokenize();
    assert!(matches!(tokens[0].token, Token::Int));
    assert_eq!(tokens[0].position, (1, 1));
    assert!(matches!(tokens[3].token, Token::Identifier(_)));
    assert_eq!(tokens[3].position, (2, 1));
    assert!(matches!(tokens[5].token, Token::Integer(-42)));
}

#[test]
fn tokenize_two_char_operators() {
    let mut lexer = Lexer::new("a == b <= c < d = e");
    let tokens = lexer.tokenize();
    assert!(matches!(tokens[1].token, Token::Equals));
    assert!(matches!(tokens[3].token, Token::LessOrEqual));
    assert!(matches!(tokens[5].token, Token::Less));
    assert!(matches!(tokens[7].token, Token::Assign));
}

#[test]
fn tokenize_string_literal() {
    let mut lexer = Lexer::new("a = \"Hello, world\";");
    let tokens = lexer.tokenize();
    assert!(matches!(tokens[2].token, Token::Literal(ref s) if s == "Hello, world"));
}

#[test]
fn parse_declaration_with_assignment() {
    let mut lexer = Lexer::new("int m;m = 11;");
    let tokens = lexer.tokenize();
    let ast = parse(&tokens).unwrap();
    assert_eq!(ast.len(), 2);
    assert!(matches!(ast[0], Statement::IntDeclaration(ref n) if n == "m"));
    assert!(matches!(ast[1], Statement::Assignment(ref n, _) if n == "m"));
}

#[test]
fn parse_rejects_missing_semicolon() {
    let mut lexer = Lexer::new("int m");
    let tokens = lexer.tokenize();
    assert!(parse(&tokens).is_err());
}

#[test]
fn source_to_machine_text() {
    let mut lexer = Lexer::new("int m;m = 11;print(m);exit;");
    let tokens = lexer.tokenize();
    let ast = parse(&tokens).unwrap();
    assert!(program_fits(&ast));
    let CodeOutput { code, .. } = transpile(ast, None).unwrap();
    assert_eq!(unbleach(code), "ssststtnssssnsntttsssssnttttnstnnn");
}

#[test]
fn source_with_strings_compiles() {
    let source = "string[10] a = \"foo\";string[10] b = \"bar\";concat(a, b);print(a);exit;";
    let mut lexer = Lexer::new(source);
    let tokens = lexer.tokenize();
    let ast = parse(&tokens).unwrap();
    assert!(program_fits(&ast));
    assert!(transpile(ast, None).is_ok());
}

#[test]
fn program_fits_rejects_unrenderable_literal() {
    let ast = vec![
        Statement::IntDeclaration("m".to_string()),
        Statement::Assignment(
            "m".to_string(),
            whitespace_compiler::ast::Expression::Integer(i32::MIN),
        ),
    ];
    assert!(!program_fits(&ast));
}

#[test]
fn debug_blocks_render_with_indentation() {
    let mut outer = DebugCodeBlock::new(Some("loop".to_string()), 0);
    outer.push("push 1".to_string());
    let mut inner = DebugCodeBlock::new(Some("body".to_string()), 1);
    inner.push("store".to_string());
    outer.append(inner);
    outer.push("exit".to_string());
    assert_eq!(
        outer.render(),
        "loop {\n  push 1;\n  body {\n    store;\n  }\n  exit;\n}\n"
    );
}

#[test]
fn nameless_debug_block_renders_lines_only() {
    let mut block = DebugCodeBlock::new(None, 0);
    block.push("add".to_string());
    assert_eq!(block.render(), "  add;\n");
}
