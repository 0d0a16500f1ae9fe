use item_grammar::event::{Diagnostic, ErrMsg, Event, NodeKind};
use item_grammar::grammar::{is_use_tree_start, item_production, parse_item, parse_module_contents};
use item_grammar::token::item_first_contains;
use item_grammar::parser::Parser;
use item_grammar::token::TokenKind;

#[test]
fn struct_named_fields_round_trip() {
    // struct P { x : T , y : U }
    let tokens = vec![
        TokenKind::StructKw,
        TokenKind::Ident,
        TokenKind::LCurly,
        TokenKind::Ident,
        TokenKind::Colon,
        TokenKind::Ident,
        TokenKind::Comma,
        TokenKind::Ident,
        TokenKind::Colon,
        TokenKind::Ident,
        TokenKind::RCurly,
    ];
    let mut p = Parser::new(tokens);
    parse_module_contents(&mut p, false);
    assert_eq!(p.pos, 11);
    assert!(p.errors.is_empty());
    let expected = vec![
        Event::Open(NodeKind::StructItem),
        Event::Token(TokenKind::StructKw),
        Event::Token(TokenKind::Ident),
        Event::Token(TokenKind::LCurly),
        Event::Open(NodeKind::NamedField),
        Event::Token(TokenKind::Ident),
        Event::Token(TokenKind::Colon),
        Event::Token(TokenKind::Ident),
        Event::Close,
        Event::Token(TokenKind::Comma),
        Event::Open(NodeKind::NamedField),
        Event::Token(TokenKind::Ident),
        Event::Token(TokenKind::Colon),
        Event::Token(TokenKind::Ident),
        Event::Close,
        Event::Token(TokenKind::RCurly),
        Event::Close,
    ];
    assert_eq!(p.events, expected);
}

#[test]
fn struct_pos_fields_round_trip() {
    // struct P ( T , U ) ;
    let tokens = vec![
        TokenKind::StructKw,
        TokenKind::Ident,
        TokenKind::LParen,
        TokenKind::Ident,
        TokenKind::Comma,
        TokenKind::Ident,
        TokenKind::RParen,
        TokenKind::Semi,
    ];
    let mut p = Parser::new(tokens);
    parse_module_contents(&mut p, false);
    assert_eq!(p.pos, 8);
    assert!(p.errors.is_empty());
    let expected = vec![
        Event::Open(NodeKind::StructItem),
        Event::Token(TokenKind::StructKw),
        Event::Token(TokenKind::Ident),
        Event::Token(TokenKind::LParen),
        Event::Open(NodeKind::PosField),
        Event::Token(TokenKind::Ident),
        Event::Close,
        Event::Token(TokenKind::Comma),
        Event::Open(NodeKind::PosField),
        Event::Token(TokenKind::Ident),
        Event::Close,
        Event::Token(TokenKind::RParen),
        Event::Token(TokenKind::Semi),
        Event::Close,
    ];
    assert_eq!(p.events, expected);
}

#[test]
fn struct_unit_round_trip() {
    // struct P ;
    let tokens = vec![TokenKind::StructKw, TokenKind::Ident, TokenKind::Semi];
    let mut p = Parser::new(tokens);
    parse_module_contents(&mut p, false);
    assert_eq!(p.pos, 3);
    assert!(p.errors.is_empty());
    let expected = vec![
        Event::Open(NodeKind::StructItem),
        Event::Token(TokenKind::StructKw),
        Event::Token(TokenKind::Ident),
        Event::Token(TokenKind::Semi),
        Event::Close,
    ];
    assert_eq!(p.events, expected);
}

#[test]
fn struct_missing_name_aborts_item() {
    // struct ; — the name is required; the item ends right there.
    let tokens = vec![TokenKind::StructKw, TokenKind::Semi];
    let mut p = Parser::new(tokens);
    parse_item(&mut p);
    assert_eq!(p.pos, 1);
    assert_eq!(
        p.errors,
        vec![Diagnostic { pos: 1, msg: ErrMsg::Expected(TokenKind::Ident) }]
    );
    // The item node is still completed around what was consumed.
    assert_eq!(p.events[0], Event::Open(NodeKind::StructItem));
    assert_eq!(p.events[p.events.len() - 1], Event::Close);
}

#[test]
fn struct_where_gate_reports_without_consuming() {
    // struct S where ; — the where-clause is an empty extension point, so the
    // gate sees `where` itself and reports the missing `;` or `{`.
    let tokens = vec![TokenKind::StructKw, TokenKind::Ident, TokenKind::WhereKw, TokenKind::Semi];
    let mut p = Parser::new(tokens);
    parse_item(&mut p);
    assert_eq!(p.pos, 2);
    assert_eq!(p.errors, vec![Diagnostic { pos: 2, msg: ErrMsg::ExpectedSemiOrCurly }]);
}

#[test]
fn struct_bad_body_token_reports() {
    // struct S * — none of `;`, `{`, `(`.
    let tokens = vec![TokenKind::StructKw, TokenKind::Ident, TokenKind::Star];
    let mut p = Parser::new(tokens);
    parse_item(&mut p);
    assert_eq!(p.pos, 2);
    assert_eq!(p.errors, vec![Diagnostic { pos: 2, msg: ErrMsg::ExpectedSemiCurlyOrParen }]);
}

#[test]
fn named_field_recovery_consumes_one_token() {
    // struct S { , x : T }
    let tokens = vec![
        TokenKind::StructKw,
        TokenKind::Ident,
        TokenKind::LCurly,
        TokenKind::Comma,
        TokenKind::Ident,
        TokenKind::Colon,
        TokenKind::Ident,
        TokenKind::RCurly,
    ];
    let mut p = Parser::new(tokens);
    parse_module_contents(&mut p, false);
    assert_eq!(p.pos, 8);
    assert_eq!(
        p.errors,
        vec![
            Diagnostic { pos: 3, msg: ErrMsg::Expected(TokenKind::Ident) },
            Diagnostic { pos: 3, msg: ErrMsg::ExpectedFieldDeclaration },
            Diagnostic { pos: 4, msg: ErrMsg::Expected(TokenKind::Comma) },
        ]
    );
    let fields = p.events.iter().filter(|e| **e == Event::Open(NodeKind::NamedField)).count();
    assert_eq!(fields, 1);
}

#[test]
fn extern_crate_with_alias() {
    // extern crate foo as bar ;
    let tokens = vec![
        TokenKind::ExternKw,
        TokenKind::CrateKw,
        TokenKind::Ident,
        TokenKind::AsKw,
        TokenKind::Ident,
        TokenKind::Semi,
    ];
    let mut p = Parser::new(tokens);
    parse_module_contents(&mut p, false);
    assert_eq!(p.pos, 6);
    assert!(p.errors.is_empty());
    let expected = vec![
        Event::Open(NodeKind::ExternCrateItem),
        Event::Token(TokenKind::ExternKw),
        Event::Token(TokenKind::CrateKw),
        Event::Token(TokenKind::Ident),
        Event::Token(TokenKind::AsKw),
        Event::Token(TokenKind::Ident),
        Event::Token(TokenKind::Semi),
        Event::Close,
    ];
    assert_eq!(p.events, expected);
}

#[test]
fn extern_crate_missing_semi_keeps_consumed_parts() {
    // extern crate foo — the name is consumed and the item completed; only the
    // missing `;` is reported.
    let tokens = vec![TokenKind::ExternKw, TokenKind::CrateKw, TokenKind::Ident];
    let mut p = Parser::new(tokens);
    parse_module_contents(&mut p, false);
    assert_eq!(p.pos, 3);
    assert_eq!(p.errors, vec![Diagnostic { pos: 3, msg: ErrMsg::Expected(TokenKind::Semi) }]);
    let expected = vec![
        Event::Open(NodeKind::ExternCrateItem),
        Event::Token(TokenKind::ExternKw),
        Event::Token(TokenKind::CrateKw),
        Event::Token(TokenKind::Ident),
        Event::Close,
    ];
    assert_eq!(p.events, expected);
}

#[test]
fn mod_file_reference() {
    // mod m ;
    let tokens = vec![TokenKind::ModKw, TokenKind::Ident, TokenKind::Semi];
    let mut p = Parser::new(tokens);
    parse_module_contents(&mut p, false);
    assert!(p.errors.is_empty());
    let expected = vec![
        Event::Open(NodeKind::ModItem),
        Event::Token(TokenKind::ModKw),
        Event::Token(TokenKind::Ident),
        Event::Token(TokenKind::Semi),
        Event::Close,
    ];
    assert_eq!(p.events, expected);
}

#[test]
fn mod_inline_body_nests() {
    // mod m { struct S ; }
    let tokens = vec![
        TokenKind::ModKw,
        TokenKind::Ident,
        TokenKind::LCurly,
        TokenKind::StructKw,
        TokenKind::Ident,
        TokenKind::Semi,
        TokenKind::RCurly,
    ];
    let mut p = Parser::new(tokens);
    parse_module_contents(&mut p, false);
    assert_eq!(p.pos, 7);
    assert!(p.errors.is_empty());
    let expected = vec![
        Event::Open(NodeKind::ModItem),
        Event::Token(TokenKind::ModKw),
        Event::Token(TokenKind::Ident),
        Event::Token(TokenKind::LCurly),
        Event::Open(NodeKind::StructItem),
        Event::Token(TokenKind::StructKw),
        Event::Token(TokenKind::Ident),
        Event::Token(TokenKind::Semi),
        Event::Close,
        Event::Token(TokenKind::RCurly),
        Event::Close,
    ];
    assert_eq!(p.events, expected);
}

#[test]
fn fn_item_full_skeleton() {
    // fn f ( ) { }
    let tokens = vec![
        TokenKind::FnKw,
        TokenKind::Ident,
        TokenKind::LParen,
        TokenKind::RParen,
        TokenKind::LCurly,
        TokenKind::RCurly,
    ];
    let mut p = Parser::new(tokens);
    parse_module_contents(&mut p, false);
    assert_eq!(p.pos, 6);
    assert!(p.errors.is_empty());
    let expected = vec![
        Event::Open(NodeKind::FnItem),
        Event::Token(TokenKind::FnKw),
        Event::Token(TokenKind::Ident),
        Event::Token(TokenKind::LParen),
        Event::Token(TokenKind::RParen),
        Event::Token(TokenKind::LCurly),
        Event::Token(TokenKind::RCurly),
        Event::Close,
    ];
    assert_eq!(p.events, expected);
}

#[test]
fn fn_item_missing_arguments_reported_tolerated() {
    // fn f — no parameter list, no body; the item still completes.
    let tokens = vec![TokenKind::FnKw, TokenKind::Ident];
    let mut p = Parser::new(tokens);
    parse_item(&mut p);
    assert_eq!(p.pos, 2);
    assert_eq!(p.errors, vec![Diagnostic { pos: 2, msg: ErrMsg::ExpectedFunctionArguments }]);
    let expected = vec![
        Event::Open(NodeKind::FnItem),
        Event::Token(TokenKind::FnKw),
        Event::Token(TokenKind::Ident),
        Event::Close,
    ];
    assert_eq!(p.events, expected);
}

#[test]
fn visibility_prefix_is_consumed_into_the_item() {
    // pub struct S ;
    let tokens = vec![TokenKind::PubKw, TokenKind::StructKw, TokenKind::Ident, TokenKind::Semi];
    let mut p = Parser::new(tokens);
    parse_module_contents(&mut p, false);
    assert!(p.errors.is_empty());
    let expected = vec![
        Event::Open(NodeKind::StructItem),
        Event::Token(TokenKind::PubKw),
        Event::Token(TokenKind::StructKw),
        Event::Token(TokenKind::Ident),
        Event::Token(TokenKind::Semi),
        Event::Close,
    ];
    assert_eq!(p.events, expected);
}

#[test]
fn outer_attribute_prefix_is_consumed_into_the_item() {
    // #[a] fn f ( ) { }
    let tokens = vec![
        TokenKind::Pound,
        TokenKind::LBrack,
        TokenKind::Ident,
        TokenKind::RBrack,
        TokenKind::FnKw,
        TokenKind::Ident,
        TokenKind::LParen,
        TokenKind::RParen,
        TokenKind::LCurly,
        TokenKind::RCurly,
    ];
    let mut p = Parser::new(tokens);
    parse_module_contents(&mut p, false);
    assert!(p.errors.is_empty());
    assert_eq!(p.pos, 10);
    assert_eq!(p.events[0], Event::Open(NodeKind::FnItem));
    assert_eq!(p.events[1], Event::Token(TokenKind::Pound));
    assert_eq!(p.events[p.events.len() - 1], Event::Close);
}

#[test]
fn inner_attributes_precede_items() {
    // #![a] struct S ;
    let tokens = vec![
        TokenKind::Pound,
        TokenKind::Excl,
        TokenKind::LBrack,
        TokenKind::Ident,
        TokenKind::RBrack,
        TokenKind::StructKw,
        TokenKind::Ident,
        TokenKind::Semi,
    ];
    let mut p = Parser::new(tokens);
    parse_module_contents(&mut p, false);
    assert!(p.errors.is_empty());
    assert_eq!(p.pos, 8);
    // The inner-attribute tokens precede the first item node.
    assert_eq!(p.events[0], Event::Token(TokenKind::Pound));
    assert_eq!(p.events[5], Event::Open(NodeKind::StructItem));
}

#[test]
fn two_semicolons_give_two_identical_diagnostics() {
    // ; ; — the same malformed prefix twice: two structurally identical
    // diagnostics, one token of progress each, no node completed.
    let tokens = vec![TokenKind::Semi, TokenKind::Semi];
    let mut p = Parser::new(tokens);
    parse_module_contents(&mut p, false);
    assert_eq!(p.pos, 2);
    assert_eq!(
        p.errors,
        vec![
            Diagnostic { pos: 0, msg: ErrMsg::ExpectedItemFoundSemi },
            Diagnostic { pos: 1, msg: ErrMsg::ExpectedItemFoundSemi },
        ]
    );
    assert_eq!(p.errors[0].msg, p.errors[1].msg);
    let expected = vec![
        Event::Tombstone,
        Event::Token(TokenKind::Semi),
        Event::Tombstone,
        Event::Token(TokenKind::Semi),
    ];
    assert_eq!(p.events, expected);
}

#[test]
fn dispatch_table_routes_every_first_set_token() {
    assert_eq!(
        item_production(TokenKind::ExternKw, TokenKind::CrateKw),
        Some(NodeKind::ExternCrateItem)
    );
    assert_eq!(item_production(TokenKind::ExternKw, TokenKind::Ident), None);
    assert_eq!(item_production(TokenKind::ModKw, TokenKind::Ident), Some(NodeKind::ModItem));
    assert_eq!(item_production(TokenKind::UseKw, TokenKind::Ident), Some(NodeKind::UseItem));
    assert_eq!(item_production(TokenKind::StructKw, TokenKind::Ident), Some(NodeKind::StructItem));
    assert_eq!(item_production(TokenKind::FnKw, TokenKind::Ident), Some(NodeKind::FnItem));
    assert_eq!(item_production(TokenKind::Ident, TokenKind::Ident), None);
    assert_eq!(item_production(TokenKind::Semi, TokenKind::Semi), None);
    assert!(item_first_contains(TokenKind::ExternKw));
    assert!(item_first_contains(TokenKind::ModKw));
    assert!(item_first_contains(TokenKind::UseKw));
    assert!(item_first_contains(TokenKind::StructKw));
    assert!(item_first_contains(TokenKind::FnKw));
    assert!(item_first_contains(TokenKind::PubKw));
    assert!(item_first_contains(TokenKind::Pound));
    assert!(!item_first_contains(TokenKind::Ident));
    assert!(!item_first_contains(TokenKind::Semi));
    assert!(!item_first_contains(TokenKind::Star));
}

#[test]
fn tokens_outside_first_set_advance_one_with_expected_item() {
    let outside = vec![
        TokenKind::Ident,
        TokenKind::Comma,
        TokenKind::Star,
        TokenKind::Colon,
        TokenKind::ColonColon,
        TokenKind::LParen,
        TokenKind::RParen,
        TokenKind::LBrack,
        TokenKind::RBrack,
        TokenKind::WhereKw,
        TokenKind::AsKw,
        TokenKind::SelfKw,
        TokenKind::SuperKw,
        TokenKind::CrateKw,
        TokenKind::Excl,
    ];
    for k in outside {
        let mut p = Parser::new(vec![k]);
        parse_item(&mut p);
        assert_eq!(p.pos, 1);
        assert_eq!(p.errors, vec![Diagnostic { pos: 0, msg: ErrMsg::ExpectedItem }]);
        assert_eq!(p.events, vec![Event::Tombstone, Event::Token(k)]);
    }
}

#[test]
fn is_use_tree_start_matches_glob_and_group() {
    assert!(is_use_tree_start(TokenKind::Star));
    assert!(is_use_tree_start(TokenKind::LCurly));
    assert!(!is_use_tree_start(TokenKind::Ident));
    assert!(!is_use_tree_start(TokenKind::ColonColon));
}

#[test]
fn empty_input_parses_to_nothing() {
    let mut p = Parser::new(Vec::new());
    parse_module_contents(&mut p, false);
    assert_eq!(p.pos, 0);
    assert!(p.events.is_empty());
    assert!(p.errors.is_empty());
}

#[test]
fn unterminated_named_fields_stop_at_end_of_input() {
    // struct S { x : T — the list stops at the end of input and the missing
    // `}` is reported; everything consumed is still in the log.
    let tokens = vec![
        TokenKind::StructKw,
        TokenKind::Ident,
        TokenKind::LCurly,
        TokenKind::Ident,
        TokenKind::Colon,
        TokenKind::Ident,
    ];
    let mut p = Parser::new(tokens.clone());
    parse_module_contents(&mut p, false);
    assert_eq!(p.pos, tokens.len());
    assert_eq!(
        p.errors,
        vec![
            Diagnostic { pos: 6, msg: ErrMsg::Expected(TokenKind::Comma) },
            Diagnostic { pos: 6, msg: ErrMsg::Expected(TokenKind::RCurly) },
        ]
    );
    assert_eq!(p.events[0], Event::Open(NodeKind::StructItem));
    assert_eq!(p.events[p.events.len() - 1], Event::Close);
}

#[test]
fn progress_and_balance_on_malformed_soup() {
    // A pathological stream: the parse terminates, consumes every token
    // exactly once in order, and leaves a well-nested log.
    let tokens = vec![
        TokenKind::RCurly,
        TokenKind::Comma,
        TokenKind::StructKw,
        TokenKind::StructKw,
        TokenKind::UseKw,
        TokenKind::LCurly,
        TokenKind::Semi,
        TokenKind::ExternKw,
        TokenKind::Ident,
        TokenKind::FnKw,
    ];
    let mut p = Parser::new(tokens.clone());
    parse_module_contents(&mut p, false);
    assert_eq!(p.pos, tokens.len());
    let mut consumed: Vec<TokenKind> = Vec::new();
    let mut depth: i64 = 0;
    for e in &p.events {
        match e {
            Event::Token(t) => consumed.push(*t),
            Event::Open(_) => depth += 1,
            Event::Close => {
                depth -= 1;
                assert!(depth >= 0);
            }
            Event::Tombstone => {}
        }
    }
    assert_eq!(depth, 0);
    assert_eq!(consumed, tokens);
}
