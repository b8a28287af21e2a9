use fowl::diagnostic::{Diagnostic, Element};
use fowl::lexer::{tokenize, Lexer};
use fowl::parser::{parse_tokens, Parser};
use fowl::token::TokenKind;

fn parse_source(src: &str) -> (fowl::syntax_tree::Cst, Vec<Diagnostic<'_>>) {
    let lexer = Lexer::new(src, "");
    Parser::new(lexer).parse()
}

fn label_of(d: &Diagnostic<'_>) -> String {
    match &d.elements()[0] {
        Element::Label { message, .. } => message.clone(),
        _ => panic!("the diagnostic has no label first"),
    }
}

#[test]
fn test_parser() {
    let src = "fn my_function(gkjh: MyType) Void {
            let a = 1 + 2;
        }";
    let lexer = Lexer::new(src, "");
    let parser = Parser::new(lexer);
    let (tree, _diagnostics) = parser.parse();

    let mut s = Vec::new();
    syntree::print::print_with_source(&mut s, &tree.tree, src).unwrap();
    let s = String::from_utf8(s).unwrap();
    println!("{s}");
}

#[test]
fn function_with_statement_builds_every_node() {
    let src = "fn my_function(gkjh: MyType) Void {
            let a = 1 + 2;
        }";
    let (tree, diagnostics) = parse_source(src);
    assert!(diagnostics.is_empty());
    // Vis, Private, Fn, 3 whitespace and name tokens, the parameters, the
    // return type, the block with its statement, and the wrapping nodes.
    assert_eq!(tree.tree.len(), 38);
    let roots: Vec<TokenKind> = tree.tree.children().map(|n| n.value()).collect();
    assert_eq!(roots, vec![TokenKind::Declaration]);
    let declaration = tree.tree.first().unwrap();
    let inside: Vec<TokenKind> = declaration.children().map(|n| n.value()).collect();
    assert_eq!(inside, vec![TokenKind::Vis, TokenKind::Fn]);
}

#[test]
fn two_functions_are_two_declarations() {
    let (tree, diagnostics) = parse_source("fn a() A {} fn b(x: X, self) B {}");
    assert!(diagnostics.is_empty());
    let roots: Vec<TokenKind> = tree.tree.children().map(|n| n.value()).collect();
    assert_eq!(
        roots,
        vec![TokenKind::Declaration, TokenKind::Whitespace, TokenKind::Declaration]
    );
}

#[test]
fn missing_return_type_is_reported() {
    let (_tree, diagnostics) = parse_source("fn f(x: T) {}");
    assert_eq!(diagnostics.len(), 1);
    assert_eq!(diagnostics[0].code, "E0003");
    assert_eq!(diagnostics[0].message, "syntax error");
    assert_eq!(label_of(&diagnostics[0]), "Syntax error: expected a type");
}

#[test]
fn missing_name_in_let_is_reported() {
    let (_tree, diagnostics) = parse_source("fn f() T { let = 1; }");
    assert_eq!(diagnostics.len(), 1);
    assert_eq!(diagnostics[0].code, "E0003");
    assert_eq!(label_of(&diagnostics[0]), "Syntax error: expected 'identifier'");
}

#[test]
fn missing_separator_names_both_tokens() {
    let (_tree, diagnostics) = parse_source("fn f(a: A {}");
    assert_eq!(diagnostics.len(), 2);
    assert_eq!(label_of(&diagnostics[0]), "Syntax error: expected one of ')',','");
    assert_eq!(label_of(&diagnostics[1]), "Syntax error: expected a type");
}

#[test]
fn lexer_error_is_reported_once() {
    let (_tree, diagnostics) = parse_source("fn f() T { let a = 1 $ + 2; }");
    let codes: Vec<&str> = diagnostics.iter().map(|d| d.code).collect();
    assert_eq!(codes, vec!["E0001"]);
}

#[test]
fn parse_tokens_matches_parser() {
    let src = "fn f(x: T) U { let mut y = (1 + 2) * 3; }";
    let toks = tokenize(src, "");
    let (tree, diagnostics) = parse_tokens(&toks);
    let (tree2, diagnostics2) = parse_source(src);
    assert!(diagnostics.is_empty());
    assert_eq!(diagnostics.len(), diagnostics2.len());
    assert_eq!(tree.tree.len(), tree2.tree.len());
}

#[test]
fn visibility_token_stands_inside_its_node() {
    let (tree, diagnostics) = parse_source("fn a() A {}");
    assert!(diagnostics.is_empty());
    let declaration = tree.tree.first().unwrap();
    let vis = declaration.first().unwrap();
    assert_eq!(vis.value(), TokenKind::Vis);
    let inside: Vec<TokenKind> = vis.children().map(|n| n.value()).collect();
    assert_eq!(inside, vec![TokenKind::Private]);
}
