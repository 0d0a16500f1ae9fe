use item_grammar::event::{Diagnostic, ErrMsg, Event, NodeKind};
use item_grammar::grammar::parse_module_contents;
use item_grammar::parser::Parser;
use item_grammar::token::TokenKind;

#[test]
fn use_tree_fan_out_three_children() {
    // use a :: { b , c :: * , d as e } ;
    let tokens = vec![
        TokenKind::UseKw,
        TokenKind::Ident,
        TokenKind::ColonColon,
        TokenKind::LCurly,
        TokenKind::Ident,
        TokenKind::Comma,
        TokenKind::Ident,
        TokenKind::ColonColon,
        TokenKind::Star,
        TokenKind::Comma,
        TokenKind::Ident,
        TokenKind::AsKw,
        TokenKind::Ident,
        TokenKind::RCurly,
        TokenKind::Semi,
    ];
    let mut p = Parser::new(tokens.clone());
    parse_module_contents(&mut p, false);
    assert_eq!(p.pos, tokens.len());
    assert!(p.errors.is_empty());
    // One use-item holding one outer use-tree with three child use-trees.
    assert_eq!(p.events[0], Event::Open(NodeKind::UseItem));
    let trees = p.events.iter().filter(|e| **e == Event::Open(NodeKind::UseTree)).count();
    assert_eq!(trees, 4);
    let expected = vec![
        Event::Open(NodeKind::UseItem),
        Event::Token(TokenKind::UseKw),
        Event::Open(NodeKind::UseTree),
        Event::Token(TokenKind::Ident),
        Event::Token(TokenKind::ColonColon),
        Event::Token(TokenKind::LCurly),
        Event::Open(NodeKind::UseTree),
        Event::Token(TokenKind::Ident),
        Event::Close,
        Event::Token(TokenKind::Comma),
        Event::Open(NodeKind::UseTree),
        Event::Token(TokenKind::Ident),
        Event::Token(TokenKind::ColonColon),
        Event::Token(TokenKind::Star),
        Event::Close,
        Event::Token(TokenKind::Comma),
        Event::Open(NodeKind::UseTree),
        Event::Token(TokenKind::Ident),
        Event::Token(TokenKind::AsKw),
        Event::Token(TokenKind::Ident),
        Event::Close,
        Event::Token(TokenKind::RCurly),
        Event::Close,
        Event::Token(TokenKind::Semi),
        Event::Close,
    ];
    assert_eq!(p.events, expected);
}

#[test]
fn use_star_glob() {
    // use * ;
    let tokens = vec![TokenKind::UseKw, TokenKind::Star, TokenKind::Semi];
    let mut p = Parser::new(tokens);
    parse_module_contents(&mut p, false);
    assert!(p.errors.is_empty());
    let expected = vec![
        Event::Open(NodeKind::UseItem),
        Event::Token(TokenKind::UseKw),
        Event::Open(NodeKind::UseTree),
        Event::Token(TokenKind::Star),
        Event::Close,
        Event::Token(TokenKind::Semi),
        Event::Close,
    ];
    assert_eq!(p.events, expected);
}

#[test]
fn use_rooted_glob() {
    // use :: * ;
    let tokens = vec![TokenKind::UseKw, TokenKind::ColonColon, TokenKind::Star, TokenKind::Semi];
    let mut p = Parser::new(tokens);
    parse_module_contents(&mut p, false);
    assert!(p.errors.is_empty());
    let expected = vec![
        Event::Open(NodeKind::UseItem),
        Event::Token(TokenKind::UseKw),
        Event::Open(NodeKind::UseTree),
        Event::Token(TokenKind::ColonColon),
        Event::Token(TokenKind::Star),
        Event::Close,
        Event::Token(TokenKind::Semi),
        Event::Close,
    ];
    assert_eq!(p.events, expected);
}

#[test]
fn use_rooted_group() {
    // use :: { a } ;
    let tokens = vec![
        TokenKind::UseKw,
        TokenKind::ColonColon,
        TokenKind::LCurly,
        TokenKind::Ident,
        TokenKind::RCurly,
        TokenKind::Semi,
    ];
    let mut p = Parser::new(tokens);
    parse_module_contents(&mut p, false);
    assert!(p.errors.is_empty());
    assert_eq!(p.pos, 6);
    let trees = p.events.iter().filter(|e| **e == Event::Open(NodeKind::UseTree)).count();
    assert_eq!(trees, 2);
}

#[test]
fn use_path_with_self_and_super_segments() {
    // use self :: a :: super ;  — segments chain as long as one follows.
    let tokens = vec![
        TokenKind::UseKw,
        TokenKind::SelfKw,
        TokenKind::ColonColon,
        TokenKind::Ident,
        TokenKind::ColonColon,
        TokenKind::SuperKw,
        TokenKind::Semi,
    ];
    let mut p = Parser::new(tokens);
    parse_module_contents(&mut p, false);
    assert!(p.errors.is_empty());
    assert_eq!(p.pos, 7);
}

#[test]
fn use_groups_nest_recursively() {
    // use a :: { b :: { c } } ;
    let tokens = vec![
        TokenKind::UseKw,
        TokenKind::Ident,
        TokenKind::ColonColon,
        TokenKind::LCurly,
        TokenKind::Ident,
        TokenKind::ColonColon,
        TokenKind::LCurly,
        TokenKind::Ident,
        TokenKind::RCurly,
        TokenKind::RCurly,
        TokenKind::Semi,
    ];
    let mut p = Parser::new(tokens.clone());
    parse_module_contents(&mut p, false);
    assert!(p.errors.is_empty());
    assert_eq!(p.pos, tokens.len());
    // Outer tree, the `b::{..}` tree, and the innermost `c`.
    let trees = p.events.iter().filter(|e| **e == Event::Open(NodeKind::UseTree)).count();
    assert_eq!(trees, 3);
    let mut depth: i64 = 0;
    for e in &p.events {
        match e {
            Event::Open(_) => depth += 1,
            Event::Close => {
                depth -= 1;
                assert!(depth >= 0);
            }
            _ => {}
        }
    }
    assert_eq!(depth, 0);
}

#[test]
fn use_bad_start_recovers_with_one_token() {
    // use ; — no use-tree can start at `;`: the tree node is abandoned, the
    // mismatch reported, the `;` consumed as the recovery step, and the
    // terminating `;` then found missing.
    let tokens = vec![TokenKind::UseKw, TokenKind::Semi];
    let mut p = Parser::new(tokens);
    parse_module_contents(&mut p, false);
    assert_eq!(p.pos, 2);
    assert_eq!(
        p.errors,
        vec![
            Diagnostic { pos: 1, msg: ErrMsg::ExpectedUseTree },
            Diagnostic { pos: 2, msg: ErrMsg::Expected(TokenKind::Semi) },
        ]
    );
    let expected = vec![
        Event::Open(NodeKind::UseItem),
        Event::Token(TokenKind::UseKw),
        Event::Tombstone,
        Event::Token(TokenKind::Semi),
        Event::Close,
    ];
    assert_eq!(p.events, expected);
}

#[test]
fn use_path_then_bad_continuation_after_coloncolon() {
    // use a :: ; — after `::` neither `*` nor `{` nor a segment follows.
    let tokens = vec![
        TokenKind::UseKw,
        TokenKind::Ident,
        TokenKind::ColonColon,
        TokenKind::Semi,
    ];
    let mut p = Parser::new(tokens);
    parse_module_contents(&mut p, false);
    assert_eq!(p.pos, 4);
    assert_eq!(p.errors, vec![Diagnostic { pos: 3, msg: ErrMsg::ExpectedCurlyOrStar }]);
    let trees = p.events.iter().filter(|e| **e == Event::Open(NodeKind::UseTree)).count();
    assert_eq!(trees, 1);
}
