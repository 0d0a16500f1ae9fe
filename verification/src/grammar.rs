//! The item grammars: the dispatcher, and the struct, use, fn, mod and
//! extern-crate productions.

use vstd::prelude::*;

use crate::event::{balanced, token_events, Diagnostic, ErrMsg, Event, NodeKind};
use crate::laws::{lemma_node_balance, lemma_tokens_lossless};
use crate::parser::{extends, Parser};
use crate::token::{path_segment_start, path_start, tok_at, use_tree_first, TokenKind};

verus! {

/// The dispatch table: which item production one token plus one token of
/// lookahead selects, or none.
pub open spec fn item_kind_for(cur: TokenKind, la: TokenKind) -> Option<NodeKind> {
    if cur == TokenKind::ExternKw && la == TokenKind::CrateKw {
        Some(NodeKind::ExternCrateItem)
    } else if cur == TokenKind::ModKw {
        Some(NodeKind::ModItem)
    } else if cur == TokenKind::UseKw {
        Some(NodeKind::UseItem)
    } else if cur == TokenKind::StructKw {
        Some(NodeKind::StructItem)
    } else if cur == TokenKind::FnKw {
        Some(NodeKind::FnItem)
    } else {
        None
    }
}

/// The dispatch table as a function, so its rows can be enumerated directly.
pub fn item_production(cur: TokenKind, la: TokenKind) -> (r: Option<NodeKind>)
    ensures
        r == item_kind_for(cur, la),
{
    if cur == TokenKind::ExternKw && la == TokenKind::CrateKw {
        Some(NodeKind::ExternCrateItem)
    } else if cur == TokenKind::ModKw {
        Some(NodeKind::ModItem)
    } else if cur == TokenKind::UseKw {
        Some(NodeKind::UseItem)
    } else if cur == TokenKind::StructKw {
        Some(NodeKind::StructItem)
    } else if cur == TokenKind::FnKw {
        Some(NodeKind::FnItem)
    } else {
        None
    }
}

/// The diagnostic the dispatcher emits for a token that starts no item; a
/// stray statement terminator gets the specialized message.
pub open spec fn item_error_message(cur: TokenKind) -> ErrMsg {
    if cur == TokenKind::Semi {
        ErrMsg::ExpectedItemFoundSemi
    } else {
        ErrMsg::ExpectedItem
    }
}

/// The appended diagnostics carry none of the dispatcher's expected-item
/// messages: a production reports its own mismatches only, so a successfully
/// routed item never looks as if dispatch had failed.
pub open spec fn no_dispatch_diags(pre: Parser, post: Parser) -> bool {
    forall|i: int|
        pre.errors@.len() <= i < post.errors@.len() ==> ((#[trigger] post.errors@[i]).msg
            != ErrMsg::ExpectedItem && post.errors@[i].msg != ErrMsg::ExpectedItemFoundSemi)
}

/// One well-formed named field, `name : type`, begins at `i` (the canonical
/// form, without a visibility qualifier).
pub open spec fn wf_named_field_at(t: Seq<TokenKind>, i: int) -> bool {
    &&& tok_at(t, i) == TokenKind::Ident
    &&& tok_at(t, i + 1) == TokenKind::Colon
    &&& tok_at(t, i + 2) == TokenKind::Ident
}

/// Tokens `i..j` form a well-formed comma-separated named-field list, as it
/// stands between the braces of a struct body.
pub open spec fn wf_named_list(t: Seq<TokenKind>, i: int, j: int) -> bool
    decreases j - i,
{
    if i >= j {
        i == j
    } else {
        &&& wf_named_field_at(t, i)
        &&& (i + 3 == j || (tok_at(t, i + 3) == TokenKind::Comma && i + 4 <= j && wf_named_list(
            t,
            i + 4,
            j,
        )))
    }
}

/// The events a well-formed named-field list appends: one completed
/// named-field node per field, in declaration order, the separating commas
/// between them.
pub open spec fn named_list_events(i: int, j: int) -> Seq<Event>
    decreases j - i,
{
    if i >= j {
        Seq::empty()
    } else {
        let field = seq![
            Event::Open(NodeKind::NamedField),
            Event::Token(TokenKind::Ident),
            Event::Token(TokenKind::Colon),
            Event::Token(TokenKind::Ident),
            Event::Close,
        ];
        if i + 3 >= j {
            field
        } else {
            field + seq![Event::Token(TokenKind::Comma)] + named_list_events(i + 4, j)
        }
    }
}

/// Tokens `i..j` form a well-formed comma-separated positional-field list
/// (each field a bare type reference, without a visibility qualifier).
pub open spec fn wf_pos_list(t: Seq<TokenKind>, i: int, j: int) -> bool
    decreases j - i,
{
    if i >= j {
        i == j
    } else {
        &&& tok_at(t, i) == TokenKind::Ident
        &&& (i + 1 == j || (tok_at(t, i + 1) == TokenKind::Comma && i + 2 <= j && wf_pos_list(
            t,
            i + 2,
            j,
        )))
    }
}

/// The events a well-formed positional-field list appends: one completed
/// positional-field node per field, in input order.
pub open spec fn pos_list_events(i: int, j: int) -> Seq<Event>
    decreases j - i,
{
    if i >= j {
        Seq::empty()
    } else {
        let field = seq![
            Event::Open(NodeKind::PosField),
            Event::Token(TokenKind::Ident),
            Event::Close,
        ];
        if i + 1 >= j {
            field
        } else {
            field + seq![Event::Token(TokenKind::Comma)] + pos_list_events(i + 2, j)
        }
    }
}

/// Length of one flat use-tree at `i`: a glob `*`, a rooted glob `::*`, a
/// single-segment path, an aliased path `seg as name`, or a path glob
/// `seg::*`; zero when no flat tree starts here.
pub open spec fn simple_tree_len(t: Seq<TokenKind>, i: int) -> int {
    if tok_at(t, i) == TokenKind::Star {
        1
    } else if tok_at(t, i) == TokenKind::ColonColon && tok_at(t, i + 1) == TokenKind::Star {
        2
    } else if path_segment_start(tok_at(t, i)) {
        if tok_at(t, i + 1) == TokenKind::AsKw {
            if tok_at(t, i + 2) == TokenKind::Ident {
                3
            } else {
                0
            }
        } else if tok_at(t, i + 1) == TokenKind::ColonColon {
            if tok_at(t, i + 2) == TokenKind::Star {
                3
            } else {
                0
            }
        } else {
            1
        }
    } else {
        0
    }
}

/// The events one flat use-tree appends: a single completed use-tree node
/// holding its tokens.
pub open spec fn simple_tree_events(t: Seq<TokenKind>, i: int) -> Seq<Event> {
    if tok_at(t, i) == TokenKind::Star {
        seq![
            Event::Open(NodeKind::UseTree),
            Event::Token(TokenKind::Star),
            Event::Close,
        ]
    } else if tok_at(t, i) == TokenKind::ColonColon && tok_at(t, i + 1) == TokenKind::Star {
        seq![
            Event::Open(NodeKind::UseTree),
            Event::Token(TokenKind::ColonColon),
            Event::Token(TokenKind::Star),
            Event::Close,
        ]
    } else if path_segment_start(tok_at(t, i)) {
        if tok_at(t, i + 1) == TokenKind::AsKw {
            seq![
                Event::Open(NodeKind::UseTree),
                Event::Token(tok_at(t, i)),
                Event::Token(TokenKind::AsKw),
                Event::Token(TokenKind::Ident),
                Event::Close,
            ]
        } else if tok_at(t, i + 1) == TokenKind::ColonColon {
            seq![
                Event::Open(NodeKind::UseTree),
                Event::Token(tok_at(t, i)),
                Event::Token(TokenKind::ColonColon),
                Event::Token(TokenKind::Star),
                Event::Close,
            ]
        } else {
            seq![
                Event::Open(NodeKind::UseTree),
                Event::Token(tok_at(t, i)),
                Event::Close,
            ]
        }
    } else {
        Seq::empty()
    }
}

/// Tokens `i..j` form a comma-separated list of flat use-trees, as it stands
/// between the braces of a nested group.
pub open spec fn wf_simple_list(t: Seq<TokenKind>, i: int, j: int) -> bool
    decreases j - i,
{
    if i >= j {
        i == j
    } else {
        let l = simple_tree_len(t, i);
        &&& l > 0
        &&& (i + l == j || (tok_at(t, i + l) == TokenKind::Comma && i + l + 1 <= j
            && wf_simple_list(t, i + l + 1, j)))
    }
}

/// The events of a flat use-tree list: one completed use-tree node per child,
/// in order, the separating commas between them.
pub open spec fn simple_list_events(t: Seq<TokenKind>, i: int, j: int) -> Seq<Event>
    decreases j - i,
{
    if i >= j {
        Seq::empty()
    } else {
        let l = simple_tree_len(t, i);
        if l <= 0 {
            Seq::empty()
        } else if i + l >= j {
            simple_tree_events(t, i)
        } else {
            simple_tree_events(t, i) + seq![Event::Token(TokenKind::Comma)] + simple_list_events(
                t,
                i + l + 1,
                j,
            )
        }
    }
}

/// Whether a use-tree may start at this kind: a glob or a nested group.
pub fn is_use_tree_start(kind: TokenKind) -> (b: bool)
    ensures
        b == (kind == TokenKind::Star || kind == TokenKind::LCurly),
{
    kind == TokenKind::Star || kind == TokenKind::LCurly
}

/// A visibility qualifier: consumes a leading `pub` and nothing else; a no-op
/// in its absence.
pub fn visibility(p: &mut Parser)
    requires
        old(p).wf(),
    ensures
        extends(*old(p), *final(p)),
        old(p).cur() == TokenKind::PubKw ==> final(p).pos == old(p).pos + 1 && final(p).events@
            == old(p).events@.push(Event::Token(TokenKind::PubKw)) && final(p).errors@
            == old(p).errors@,
        old(p).cur() != TokenKind::PubKw ==> *final(p) == *old(p),
{
    if p.at(TokenKind::PubKw) {
        p.bump();
    }
}

/// One attribute: `#`, an optional `!`, and a bracketed body whose tokens are
/// consumed without further structure. Always consumes at least the `#`.
fn attribute(p: &mut Parser)
    requires
        old(p).wf(),
        old(p).cur() == TokenKind::Pound,
    ensures
        extends(*old(p), *final(p)),
        final(p).pos > old(p).pos,
        no_dispatch_diags(*old(p), *final(p)),
{
    p.bump();
    if p.at(TokenKind::Excl) {
        p.bump();
    }
    if p.eat(TokenKind::LBrack) {
        let ghost pre = *p;
        while !p.at(TokenKind::RBrack) && !p.at(TokenKind::Eof)
            invariant
                extends(pre, *p),
                p.errors@ == pre.errors@,
            decreases p.tokens@.len() - p.pos,
        {
            p.bump();
        }
        p.expect(TokenKind::RBrack);
    }
}

/// A run of inner attributes (`#!`-prefixed); a no-op when none is present.
pub fn inner_attributes(p: &mut Parser)
    requires
        old(p).wf(),
    ensures
        extends(*old(p), *final(p)),
        old(p).cur() != TokenKind::Pound ==> *final(p) == *old(p),
        no_dispatch_diags(*old(p), *final(p)),
{
    let ghost pre = *p;
    while p.at(TokenKind::Pound) && p.raw_lookahead(1) == TokenKind::Excl
        invariant
            extends(pre, *p),
            pre.cur() != TokenKind::Pound ==> *p == pre,
            no_dispatch_diags(pre, *p),
        decreases p.tokens@.len() - p.pos,
    {
        attribute(p);
    }
}

/// A run of outer attributes (`#`-prefixed, not `#!`); a no-op when none is
/// present, and guaranteed to consume when one is.
pub fn outer_attributes(p: &mut Parser)
    requires
        old(p).wf(),
    ensures
        extends(*old(p), *final(p)),
        old(p).cur() != TokenKind::Pound ==> *final(p) == *old(p),
        old(p).cur() == TokenKind::Pound && old(p).nth(1) != TokenKind::Excl ==> final(p).pos
            > old(p).pos,
        no_dispatch_diags(*old(p), *final(p)),
{
    let ghost pre = *p;
    while p.at(TokenKind::Pound) && p.raw_lookahead(1) != TokenKind::Excl
        invariant
            extends(pre, *p),
            pre.cur() != TokenKind::Pound ==> *p == pre,
            pre.cur() == TokenKind::Pound && pre.nth(1) != TokenKind::Excl ==> p.pos > pre.pos
                || *p == pre,
            no_dispatch_diags(pre, *p),
        decreases p.tokens@.len() - p.pos,
    {
        attribute(p);
    }
}

/// Extension point for the generic-parameter grammar: a placeholder that
/// consumes nothing, kept so a future grammar can slot in without touching
/// the dispatch around it.
pub fn generic_parameters(p: &mut Parser)
    requires
        old(p).wf(),
    ensures
        *final(p) == *old(p),
{
}

/// Extension point for the where-clause grammar: a placeholder that consumes
/// nothing, like `generic_parameters`.
pub fn where_clause(p: &mut Parser)
    requires
        old(p).wf(),
    ensures
        *final(p) == *old(p),
{
}

/// Extension point standing in for the type grammar: a type reference is a
/// single identifier here. On anything else it reports the mismatch and, so
/// that field lists always advance, consumes one token.
pub fn type_ref(p: &mut Parser)
    requires
        old(p).wf(),
    ensures
        extends(*old(p), *final(p)),
        old(p).cur() == TokenKind::Ident ==> final(p).errors@ == old(p).errors@,
        old(p).cur() != TokenKind::Ident ==> final(p).errors@ == old(p).errors@.push(
            Diagnostic { pos: old(p).pos, msg: ErrMsg::Expected(TokenKind::Ident) },
        ),
        old(p).pos < old(p).tokens@.len() ==> final(p).pos == old(p).pos + 1 && final(p).events@
            == old(p).events@.push(Event::Token(old(p).cur())),
        old(p).pos >= old(p).tokens@.len() ==> final(p).pos == old(p).pos && final(p).events@
            == old(p).events@,
{
    if p.at(TokenKind::Ident) {
        p.bump();
    } else {
        p.err_and_bump(ErrMsg::Expected(TokenKind::Ident));
    }
}

/// An optional `as`-alias. Returns whether what was present was well formed:
/// true when absent, true for `as` plus a name, false for `as` without one.
pub fn alias(p: &mut Parser) -> (ok: bool)
    requires
        old(p).wf(),
    ensures
        extends(*old(p), *final(p)),
        old(p).cur() != TokenKind::AsKw ==> ok && *final(p) == *old(p),
        old(p).cur() == TokenKind::AsKw ==> ok == (old(p).nth(1) == TokenKind::Ident),
        old(p).cur() == TokenKind::AsKw && old(p).nth(1) == TokenKind::Ident ==> final(p).pos
            == old(p).pos + 2 && final(p).errors@ == old(p).errors@ && final(p).events@ == old(
            p,
        ).events@.push(Event::Token(TokenKind::AsKw)).push(Event::Token(TokenKind::Ident)),
        old(p).cur() == TokenKind::AsKw && old(p).nth(1) != TokenKind::Ident ==> final(p).pos
            == old(p).pos + 1 && final(p).errors@ == old(p).errors@.push(
            Diagnostic { pos: (old(p).pos + 1) as usize, msg: ErrMsg::Expected(TokenKind::Ident) },
        ),
{
    if p.at(TokenKind::AsKw) {
        p.bump();
        p.expect(TokenKind::Ident)
    } else {
        true
    }
}

/// One named field: visibility, name, `:`, type. A field that does not start
/// with a name is reported and one token is consumed to keep the list moving.
fn named_field(p: &mut Parser)
    requires
        old(p).wf(),
        old(p).pos < old(p).tokens@.len(),
    ensures
        extends(*old(p), *final(p)),
        final(p).pos > old(p).pos,
        no_dispatch_diags(*old(p), *final(p)),
        old(p).cur() == TokenKind::Ident && old(p).nth(1) == TokenKind::Colon && old(p).nth(2)
            == TokenKind::Ident ==> final(p).pos == old(p).pos + 3 && final(p).errors@
            == old(p).errors@ && final(p).events@ == old(p).events@
            + seq![
            Event::Open(NodeKind::NamedField),
            Event::Token(TokenKind::Ident),
            Event::Token(TokenKind::Colon),
            Event::Token(TokenKind::Ident),
            Event::Close,
        ],
        old(p).cur() != TokenKind::Ident && old(p).cur() != TokenKind::PubKw ==> final(p).pos
            == old(p).pos + 1 && final(p).errors@ == old(p).errors@.push(
            Diagnostic { pos: old(p).pos, msg: ErrMsg::Expected(TokenKind::Ident) },
        ).push(Diagnostic { pos: old(p).pos, msg: ErrMsg::ExpectedFieldDeclaration })
            && final(p).events@ == old(p).events@
            + seq![Event::Tombstone, Event::Token(old(p).cur())],
{
    let m = p.start();
    visibility(p);
    if p.expect(TokenKind::Ident) {
        p.expect(TokenKind::Colon);
        type_ref(p);
        m.complete(p, NodeKind::NamedField);
    } else {
        m.abandon(p);
        p.err_and_bump(ErrMsg::ExpectedFieldDeclaration);
    }
    proof {
        assert(p.open_markers@ =~= old(p).open_markers@);
        if old(p).cur() == TokenKind::Ident && old(p).nth(1) == TokenKind::Colon && old(p).nth(2)
            == TokenKind::Ident {
            assert(p.events@ =~= old(p).events@
                + seq![
                Event::Open(NodeKind::NamedField),
                Event::Token(TokenKind::Ident),
                Event::Token(TokenKind::Colon),
                Event::Token(TokenKind::Ident),
                Event::Close,
            ]);
        }
        if old(p).cur() != TokenKind::Ident && old(p).cur() != TokenKind::PubKw {
            assert(p.events@ =~= old(p).events@
                + seq![Event::Tombstone, Event::Token(old(p).cur())]);
        }
    }
}

/// A named-field body: `{`, comma-separated fields, `}`. Stops at the closing
/// brace or at the end of input.
pub fn named_fields(p: &mut Parser)
    requires
        old(p).wf(),
        old(p).cur() == TokenKind::LCurly,
    ensures
        extends(*old(p), *final(p)),
        final(p).pos > old(p).pos,
        no_dispatch_diags(*old(p), *final(p)),
        final(p).pos == final(p).tokens@.len() || final(p).tokens@[final(p).pos - 1]
            == TokenKind::RCurly,
        forall|j: int|
            old(p).pos + 1 <= j && wf_named_list(old(p).tokens@, old(p).pos + 1, j) && tok_at(
                old(p).tokens@,
                j,
            ) == TokenKind::RCurly ==> final(p).pos == j + 1 && final(p).errors@ == old(p).errors@
                && final(p).events@ == old(p).events@ + seq![Event::Token(TokenKind::LCurly)]
                + named_list_events(old(p).pos + 1, j) + seq![Event::Token(TokenKind::RCurly)],
{
    p.bump();
    named_field_list(p);
    p.expect(TokenKind::RCurly);
    proof {
        assert forall|j: int|
            old(p).pos + 1 <= j && wf_named_list(old(p).tokens@, old(p).pos + 1, j) && tok_at(
                old(p).tokens@,
                j,
            ) == TokenKind::RCurly implies p.pos == j + 1 && p.errors@ == old(p).errors@
            && p.events@ == old(p).events@ + seq![Event::Token(TokenKind::LCurly)]
            + named_list_events(old(p).pos + 1, j) + seq![Event::Token(TokenKind::RCurly)] by {
            assert(p.events@ =~= old(p).events@ + seq![Event::Token(TokenKind::LCurly)]
                + named_list_events(old(p).pos + 1, j) + seq![Event::Token(TokenKind::RCurly)]);
        }
    }
}

/// The fields between a struct body's braces, one after another, up to the
/// closing brace or the end of input. On a well-formed list it consumes
/// exactly the list, emits no diagnostic, and appends one completed
/// named-field node per field, in declaration order; a field that does not
/// start with a name is abandoned, reported, and skipped over by one token.
fn named_field_list(p: &mut Parser)
    requires
        old(p).wf(),
    ensures
        extends(*old(p), *final(p)),
        no_dispatch_diags(*old(p), *final(p)),
        final(p).pos == final(p).tokens@.len() || final(p).cur() == TokenKind::RCurly,
        forall|j: int|
            old(p).pos <= j && wf_named_list(old(p).tokens@, old(p).pos as int, j) && tok_at(
                old(p).tokens@,
                j,
            ) == TokenKind::RCurly ==> final(p).pos == j && final(p).errors@ == old(p).errors@
                && final(p).events@ == old(p).events@ + named_list_events(old(p).pos as int, j),
        old(p).cur() != TokenKind::Ident && old(p).cur() != TokenKind::PubKw && old(p).cur()
            != TokenKind::RCurly && old(p).cur() != TokenKind::Eof ==> final(p).errors@.len()
            >= old(p).errors@.len() + 2 && final(p).errors@[old(p).errors@.len() as int]
            == (Diagnostic { pos: old(p).pos, msg: ErrMsg::Expected(TokenKind::Ident) }) && final(p).errors@[old(p).errors@.len() as int + 1] == (Diagnostic {
            pos: old(p).pos,
            msg: ErrMsg::ExpectedFieldDeclaration,
        }) && final(p).events@[old(p).events@.len() as int] == Event::Tombstone && final(p).events@[old(p).events@.len() as int + 1] == Event::Token(old(p).cur()),
    decreases p.tokens@.len() - p.pos,
{
    if !p.at(TokenKind::RCurly) && !p.at(TokenKind::Eof) {
        named_field(p);
        if !p.at(TokenKind::RCurly) {
            p.expect(TokenKind::Comma);
        }
        let ghost mid = *p;
        named_field_list(p);
        proof {
            let t = old(p).tokens@;
            let i0 = old(p).pos as int;
            assert forall|j: int|
                i0 <= j && wf_named_list(t, i0, j) && tok_at(t, j) == TokenKind::RCurly implies p.pos
                == j && p.errors@ == old(p).errors@ && p.events@ == old(p).events@
                + named_list_events(i0, j) by {
                if i0 + 3 == j {
                    assert(wf_named_list(t, j, j));
                    assert(p.events@ =~= old(p).events@ + named_list_events(i0, j));
                } else {
                    assert(wf_named_list(t, i0 + 4, j));
                    assert(mid.pos == i0 + 4);
                    assert(p.events@ =~= old(p).events@ + named_list_events(i0, j));
                }
            }
        }
    } else {
        proof {
            let t = old(p).tokens@;
            let i0 = old(p).pos as int;
            assert forall|j: int|
                i0 <= j && wf_named_list(t, i0, j) && tok_at(t, j) == TokenKind::RCurly implies p.pos
                == j && p.errors@ == old(p).errors@ && p.events@ == old(p).events@
                + named_list_events(i0, j) by {
                assert(p.events@ =~= old(p).events@ + named_list_events(i0, j));
            }
        }
    }
}

/// A positional-field body: `(`, comma-separated `visibility type` fields,
/// `)`. Stops at the closing parenthesis or at the end of input.
pub fn pos_fields(p: &mut Parser)
    requires
        old(p).wf(),
    ensures
        extends(*old(p), *final(p)),
        old(p).cur() == TokenKind::LParen ==> final(p).pos > old(p).pos && (final(p).pos
            == final(p).tokens@.len() || final(p).tokens@[final(p).pos - 1] == TokenKind::RParen),
        old(p).cur() != TokenKind::LParen ==> final(p).pos == old(p).pos && final(p).events@
            == old(p).events@ && final(p).errors@ == old(p).errors@.push(
            Diagnostic { pos: old(p).pos, msg: ErrMsg::Expected(TokenKind::LParen) },
        ),
        no_dispatch_diags(*old(p), *final(p)),
        forall|j: int|
            old(p).cur() == TokenKind::LParen && old(p).pos + 1 <= j && wf_pos_list(
                old(p).tokens@,
                old(p).pos + 1,
                j,
            ) && tok_at(old(p).tokens@, j) == TokenKind::RParen ==> final(p).pos == j + 1 && final(p).errors@ == old(p).errors@ && final(p).events@ == old(p).events@
                + seq![Event::Token(TokenKind::LParen)] + pos_list_events(old(p).pos + 1, j)
                + seq![Event::Token(TokenKind::RParen)],
{
    if !p.expect(TokenKind::LParen) {
        return ;
    }
    pos_field_list(p);
    p.expect(TokenKind::RParen);
    proof {
        assert forall|j: int|
            old(p).cur() == TokenKind::LParen && old(p).pos + 1 <= j && wf_pos_list(
                old(p).tokens@,
                old(p).pos + 1,
                j,
            ) && tok_at(old(p).tokens@, j) == TokenKind::RParen implies p.pos == j + 1 && p.errors@
            == old(p).errors@ && p.events@ == old(p).events@
            + seq![Event::Token(TokenKind::LParen)] + pos_list_events(old(p).pos + 1, j)
            + seq![Event::Token(TokenKind::RParen)] by {
            assert(p.events@ =~= old(p).events@ + seq![Event::Token(TokenKind::LParen)]
                + pos_list_events(old(p).pos + 1, j) + seq![Event::Token(TokenKind::RParen)]);
        }
    }
}

/// The fields between a tuple body's parentheses, one after another, up to
/// the closing parenthesis or the end of input. On a well-formed list it
/// consumes exactly the list, emits no diagnostic, and appends one completed
/// positional-field node per field, in input order; the field marker is
/// always completed, never abandoned.
fn pos_field_list(p: &mut Parser)
    requires
        old(p).wf(),
    ensures
        extends(*old(p), *final(p)),
        no_dispatch_diags(*old(p), *final(p)),
        final(p).pos == final(p).tokens@.len() || final(p).cur() == TokenKind::RParen,
        forall|j: int|
            old(p).pos <= j && wf_pos_list(old(p).tokens@, old(p).pos as int, j) && tok_at(
                old(p).tokens@,
                j,
            ) == TokenKind::RParen ==> final(p).pos == j && final(p).errors@ == old(p).errors@
                && final(p).events@ == old(p).events@ + pos_list_events(old(p).pos as int, j),
    decreases p.tokens@.len() - p.pos,
{
    if !p.at(TokenKind::RParen) && !p.at(TokenKind::Eof) {
        let ghost st = *p;
        let m = p.start();
        visibility(p);
        type_ref(p);
        m.complete(p, NodeKind::PosField);
        proof {
            assert(p.open_markers@ =~= st.open_markers@);
            if st.cur() == TokenKind::Ident {
                assert(p.events@ =~= st.events@
                    + seq![
                    Event::Open(NodeKind::PosField),
                    Event::Token(TokenKind::Ident),
                    Event::Close,
                ]);
            }
        }
        if !p.at(TokenKind::RParen) {
            p.expect(TokenKind::Comma);
        }
        let ghost mid = *p;
        pos_field_list(p);
        proof {
            let t = old(p).tokens@;
            let i0 = old(p).pos as int;
            assert forall|j: int|
                i0 <= j && wf_pos_list(t, i0, j) && tok_at(t, j) == TokenKind::RParen implies p.pos
                == j && p.errors@ == old(p).errors@ && p.events@ == old(p).events@
                + pos_list_events(i0, j) by {
                if i0 + 1 == j {
                    assert(wf_pos_list(t, j, j));
                    assert(p.events@ =~= old(p).events@ + pos_list_events(i0, j));
                } else {
                    assert(wf_pos_list(t, i0 + 2, j));
                    assert(mid.pos == i0 + 2);
                    assert(p.events@ =~= old(p).events@ + pos_list_events(i0, j));
                }
            }
        }
    } else {
        proof {
            let t = old(p).tokens@;
            let i0 = old(p).pos as int;
            assert forall|j: int|
                i0 <= j && wf_pos_list(t, i0, j) && tok_at(t, j) == TokenKind::RParen implies p.pos
                == j && p.errors@ == old(p).errors@ && p.events@ == old(p).events@
                + pos_list_events(i0, j) by {
                assert(p.events@ =~= old(p).events@ + pos_list_events(i0, j));
            }
        }
    }
}

/// A struct item: the keyword, a required name, the generic-parameter
/// extension point, then one of the three mutually exclusive body shapes
/// (unit `;`, named fields `{..}`, positional fields `(..);`), with an
/// optional where-clause gate before the first two.
pub fn struct_item(p: &mut Parser)
    requires
        old(p).wf(),
        old(p).cur() == TokenKind::StructKw,
    ensures
        extends(*old(p), *final(p)),
        final(p).pos > old(p).pos,
        no_dispatch_diags(*old(p), *final(p)),
        old(p).nth(1) == TokenKind::Ident && old(p).nth(2) == TokenKind::Semi ==> final(p).pos
            == old(p).pos + 3 && final(p).errors@ == old(p).errors@ && final(p).events@
            == old(p).events@
            + seq![
            Event::Token(TokenKind::StructKw),
            Event::Token(TokenKind::Ident),
            Event::Token(TokenKind::Semi),
        ],
        old(p).nth(1) == TokenKind::Ident && old(p).nth(2) == TokenKind::LCurly ==> final(p).pos
            == final(p).tokens@.len() || final(p).tokens@[final(p).pos - 1] == TokenKind::RCurly,
        old(p).nth(1) == TokenKind::Ident && old(p).nth(2) == TokenKind::LParen ==> final(p).pos
            == final(p).tokens@.len() || final(p).tokens@[final(p).pos - 1] == TokenKind::Semi
            || final(p).tokens@[final(p).pos - 1] == TokenKind::RParen,
        old(p).nth(1) == TokenKind::Ident && old(p).nth(2) == TokenKind::WhereKw ==> final(p).pos
            == old(p).pos + 2 && final(p).errors@ == old(p).errors@.push(
            Diagnostic { pos: (old(p).pos + 2) as usize, msg: ErrMsg::ExpectedSemiOrCurly },
        ) && final(p).events@ == old(p).events@
            + seq![Event::Token(TokenKind::StructKw), Event::Token(TokenKind::Ident)],
        old(p).nth(1) == TokenKind::Ident && old(p).nth(2) != TokenKind::Semi && old(p).nth(2)
            != TokenKind::LCurly && old(p).nth(2) != TokenKind::LParen && old(p).nth(2)
            != TokenKind::WhereKw ==> final(p).pos == old(p).pos + 2 && final(p).errors@
            == old(p).errors@.push(
            Diagnostic { pos: (old(p).pos + 2) as usize, msg: ErrMsg::ExpectedSemiCurlyOrParen },
        ) && final(p).events@ == old(p).events@
            + seq![Event::Token(TokenKind::StructKw), Event::Token(TokenKind::Ident)],
        old(p).nth(1) != TokenKind::Ident ==> final(p).pos == old(p).pos + 1 && final(p).errors@
            == old(p).errors@.push(
            Diagnostic { pos: (old(p).pos + 1) as usize, msg: ErrMsg::Expected(TokenKind::Ident) },
        ),
        forall|j: int|
            old(p).nth(1) == TokenKind::Ident && old(p).nth(2) == TokenKind::LCurly && old(p).pos
                + 3 <= j && wf_named_list(old(p).tokens@, old(p).pos + 3, j) && tok_at(
                old(p).tokens@,
                j,
            ) == TokenKind::RCurly ==> final(p).pos == j + 1 && final(p).errors@ == old(p).errors@
                && final(p).events@ == old(p).events@
                + seq![
                Event::Token(TokenKind::StructKw),
                Event::Token(TokenKind::Ident),
                Event::Token(TokenKind::LCurly),
            ] + named_list_events(old(p).pos + 3, j) + seq![Event::Token(TokenKind::RCurly)],
        forall|j: int|
            old(p).nth(1) == TokenKind::Ident && old(p).nth(2) == TokenKind::LParen && old(p).pos
                + 3 <= j && #[trigger] wf_pos_list(old(p).tokens@, old(p).pos + 3, j) && tok_at(
                old(p).tokens@,
                j,
            ) == TokenKind::RParen && tok_at(old(p).tokens@, j + 1) == TokenKind::Semi ==> final(p).pos == j + 2 && final(p).errors@ == old(p).errors@ && final(p).events@ == old(
                p,
            ).events@
                + seq![
                Event::Token(TokenKind::StructKw),
                Event::Token(TokenKind::Ident),
                Event::Token(TokenKind::LParen),
            ] + pos_list_events(old(p).pos + 3, j)
                + seq![Event::Token(TokenKind::RParen), Event::Token(TokenKind::Semi)],
        forall|j: int|
            old(p).nth(1) == TokenKind::Ident && old(p).nth(2) == TokenKind::LParen && old(p).pos
                + 3 <= j && #[trigger] wf_pos_list(old(p).tokens@, old(p).pos + 3, j) && tok_at(
                old(p).tokens@,
                j,
            ) == TokenKind::RParen && tok_at(old(p).tokens@, j + 1) != TokenKind::Semi ==> final(p).pos == j + 1 && final(p).errors@ == old(p).errors@.push(
                Diagnostic { pos: (j + 1) as usize, msg: ErrMsg::Expected(TokenKind::Semi) },
            ),
{
    p.bump();
    if !p.expect(TokenKind::Ident) {
        return ;
    }
    generic_parameters(p);
    if p.at(TokenKind::WhereKw) {
        where_clause(p);
        if p.at(TokenKind::Semi) {
            p.bump();
        } else if p.at(TokenKind::LCurly) {
            named_fields(p);
        } else {
            p.error(ErrMsg::ExpectedSemiOrCurly);
        }
    } else if p.at(TokenKind::Semi) {
        p.bump();
    } else if p.at(TokenKind::LCurly) {
        named_fields(p);
        proof {
            let t = old(p).tokens@;
            assert forall|j: int|
                old(p).pos + 3 <= j && #[trigger] wf_named_list(t, old(p).pos + 3, j) && tok_at(t, j)
                    == TokenKind::RCurly implies p.pos == j + 1 && p.errors@ == old(p).errors@
                && p.events@ == old(p).events@
                + seq![
                Event::Token(TokenKind::StructKw),
                Event::Token(TokenKind::Ident),
                Event::Token(TokenKind::LCurly),
            ] + named_list_events(old(p).pos + 3, j) + seq![Event::Token(TokenKind::RCurly)] by {
                assert(p.events@ =~= old(p).events@
                    + seq![
                    Event::Token(TokenKind::StructKw),
                    Event::Token(TokenKind::Ident),
                    Event::Token(TokenKind::LCurly),
                ] + named_list_events(old(p).pos + 3, j) + seq![Event::Token(TokenKind::RCurly)]);
            }
        }
    } else if p.at(TokenKind::LParen) {
        pos_fields(p);
        let ghost after_fields = *p;
        p.expect(TokenKind::Semi);
        proof {
            let t = old(p).tokens@;
            assert forall|j: int|
                old(p).pos + 3 <= j && #[trigger] wf_pos_list(t, old(p).pos + 3, j) && tok_at(t, j)
                    == TokenKind::RParen && tok_at(t, j + 1) == TokenKind::Semi implies p.pos == j
                + 2 && p.errors@ == old(p).errors@ && p.events@ == old(p).events@
                + seq![
                Event::Token(TokenKind::StructKw),
                Event::Token(TokenKind::Ident),
                Event::Token(TokenKind::LParen),
            ] + pos_list_events(old(p).pos + 3, j)
                + seq![Event::Token(TokenKind::RParen), Event::Token(TokenKind::Semi)] by {
                assert(after_fields.pos == j + 1);
                assert(p.events@ =~= old(p).events@
                    + seq![
                    Event::Token(TokenKind::StructKw),
                    Event::Token(TokenKind::Ident),
                    Event::Token(TokenKind::LParen),
                ] + pos_list_events(old(p).pos + 3, j)
                    + seq![Event::Token(TokenKind::RParen), Event::Token(TokenKind::Semi)]);
            }
            assert forall|j: int|
                old(p).pos + 3 <= j && #[trigger] wf_pos_list(t, old(p).pos + 3, j) && tok_at(t, j)
                    == TokenKind::RParen && tok_at(t, j + 1) != TokenKind::Semi implies p.pos == j
                + 1 && p.errors@ == old(p).errors@.push(
                Diagnostic { pos: (j + 1) as usize, msg: ErrMsg::Expected(TokenKind::Semi) },
            ) by {
                assert(after_fields.pos == j + 1);
            }
        }
    } else {
        p.error(ErrMsg::ExpectedSemiCurlyOrParen);
    }
    proof {
        if old(p).nth(1) == TokenKind::Ident {
            if old(p).nth(2) == TokenKind::Semi {
                assert(p.events@ =~= old(p).events@
                    + seq![
                    Event::Token(TokenKind::StructKw),
                    Event::Token(TokenKind::Ident),
                    Event::Token(TokenKind::Semi),
                ]);
            } else if old(p).nth(2) == TokenKind::WhereKw || (old(p).nth(2) != TokenKind::LCurly
                && old(p).nth(2) != TokenKind::LParen) {
                assert(p.events@ =~= old(p).events@
                    + seq![Event::Token(TokenKind::StructKw), Event::Token(TokenKind::Ident)]);
            }
        }
    }
}

/// A use-path: an optional leading `::`, a segment, then `::`-joined further
/// segments as long as one follows; `::` before `*` or `{` is left for the
/// use-tree grammar.
fn use_path(p: &mut Parser)
    requires
        old(p).wf(),
        path_start(old(p).cur()),
    ensures
        extends(*old(p), *final(p)),
        final(p).pos > old(p).pos,
        no_dispatch_diags(*old(p), *final(p)),
        path_segment_start(old(p).cur()) && !(old(p).nth(1) == TokenKind::ColonColon
            && path_segment_start(old(p).nth(2))) ==> final(p).pos == old(p).pos + 1 && final(p).errors@ == old(p).errors@ && final(p).events@ == old(p).events@.push(
            Event::Token(old(p).cur()),
        ),
{
    if p.at(TokenKind::ColonColon) {
        p.bump();
    }
    if p.at(TokenKind::Ident) || p.at(TokenKind::SelfKw) || p.at(TokenKind::SuperKw) {
        p.bump();
    } else {
        p.error(ErrMsg::Expected(TokenKind::Ident));
    }
    let ghost pre = *p;
    while p.at(TokenKind::ColonColon) && (p.raw_lookahead(1) == TokenKind::Ident
        || p.raw_lookahead(1) == TokenKind::SelfKw || p.raw_lookahead(1) == TokenKind::SuperKw)
        invariant
            extends(pre, *p),
            p.errors@ == pre.errors@,
            !(pre.cur() == TokenKind::ColonColon && path_segment_start(pre.nth(1))) ==> *p == pre,
        decreases p.tokens@.len() - p.pos,
    {
        p.bump();
        p.bump();
    }
}

/// A function item: the keyword, a required name (reported but tolerated when
/// absent), a parameter list skeleton, and an optional opaque `{ }` body.
pub fn fn_item(p: &mut Parser)
    requires
        old(p).wf(),
        old(p).cur() == TokenKind::FnKw,
    ensures
        extends(*old(p), *final(p)),
        final(p).pos > old(p).pos,
        no_dispatch_diags(*old(p), *final(p)),
        old(p).nth(1) == TokenKind::Ident && old(p).nth(2) == TokenKind::LParen && old(p).nth(3)
            == TokenKind::RParen && old(p).nth(4) == TokenKind::LCurly && old(p).nth(5)
            == TokenKind::RCurly ==> final(p).pos == old(p).pos + 6 && final(p).errors@
            == old(p).errors@,
        old(p).nth(1) != TokenKind::Ident ==> final(p).errors@.len() > old(p).errors@.len()
            && final(p).errors@[old(p).errors@.len() as int] == (Diagnostic {
            pos: (old(p).pos + 1) as usize,
            msg: ErrMsg::Expected(TokenKind::Ident),
        }),
        old(p).nth(1) == TokenKind::Ident && old(p).nth(2) != TokenKind::LParen && old(p).nth(2)
            != TokenKind::LCurly ==> final(p).pos == old(p).pos + 2 && final(p).errors@
            == old(p).errors@.push(
            Diagnostic { pos: (old(p).pos + 2) as usize, msg: ErrMsg::ExpectedFunctionArguments },
        ),
        old(p).nth(1) == TokenKind::Ident && old(p).nth(2) == TokenKind::LParen && old(p).nth(3)
            != TokenKind::RParen ==> final(p).errors@.len() > old(p).errors@.len() && final(p).errors@[old(p).errors@.len() as int] == (Diagnostic {
            pos: (old(p).pos + 3) as usize,
            msg: ErrMsg::Expected(TokenKind::RParen),
        }),
        old(p).nth(1) == TokenKind::Ident && old(p).nth(2) == TokenKind::LParen && old(p).nth(3)
            == TokenKind::RParen && old(p).nth(4) != TokenKind::LCurly ==> final(p).pos == old(
            p,
        ).pos + 4 && final(p).errors@ == old(p).errors@ && final(p).events@ == old(p).events@
            + seq![
            Event::Token(TokenKind::FnKw),
            Event::Token(TokenKind::Ident),
            Event::Token(TokenKind::LParen),
            Event::Token(TokenKind::RParen),
        ],
{
    p.bump();
    p.expect(TokenKind::Ident);
    if p.at(TokenKind::LParen) {
        fn_value_parameters(p);
    } else {
        p.error(ErrMsg::ExpectedFunctionArguments);
    }
    if p.at(TokenKind::LCurly) {
        p.expect(TokenKind::LCurly);
        p.expect(TokenKind::RCurly);
    }
    proof {
        if old(p).nth(1) == TokenKind::Ident && old(p).nth(2) == TokenKind::LParen && old(p).nth(3)
            == TokenKind::RParen && old(p).nth(4) != TokenKind::LCurly {
            assert(p.events@ =~= old(p).events@
                + seq![
                Event::Token(TokenKind::FnKw),
                Event::Token(TokenKind::Ident),
                Event::Token(TokenKind::LParen),
                Event::Token(TokenKind::RParen),
            ]);
        }
    }
}

/// The value-parameter list skeleton: `(` then `)`; individual parameters are
/// not yet parsed here.
fn fn_value_parameters(p: &mut Parser)
    requires
        old(p).wf(),
        old(p).cur() == TokenKind::LParen,
    ensures
        extends(*old(p), *final(p)),
        final(p).pos > old(p).pos,
        no_dispatch_diags(*old(p), *final(p)),
        old(p).nth(1) == TokenKind::RParen ==> final(p).pos == old(p).pos + 2 && final(p).errors@
            == old(p).errors@ && final(p).events@ == old(p).events@.push(
            Event::Token(TokenKind::LParen),
        ).push(Event::Token(TokenKind::RParen)),
        old(p).nth(1) != TokenKind::RParen ==> final(p).pos == old(p).pos + 1 && final(p).errors@
            == old(p).errors@.push(
            Diagnostic { pos: (old(p).pos + 1) as usize, msg: ErrMsg::Expected(TokenKind::RParen) },
        ),
{
    p.bump();
    p.expect(TokenKind::RParen);
}

/// An extern-crate item: `extern crate`, a required name, an optional alias,
/// and a required `;`, each later requirement skipped once one fails.
pub fn extern_crate_item(p: &mut Parser)
    requires
        old(p).wf(),
        old(p).cur() == TokenKind::ExternKw,
        old(p).nth(1) == TokenKind::CrateKw,
    ensures
        extends(*old(p), *final(p)),
        final(p).pos >= old(p).pos + 2,
        no_dispatch_diags(*old(p), *final(p)),
        old(p).nth(2) == TokenKind::Ident && old(p).nth(3) == TokenKind::Semi ==> final(p).pos
            == old(p).pos + 4 && final(p).errors@ == old(p).errors@,
        old(p).nth(2) == TokenKind::Ident && old(p).nth(3) == TokenKind::AsKw && old(p).nth(4)
            == TokenKind::Ident && old(p).nth(5) == TokenKind::Semi ==> final(p).pos == old(p).pos
            + 6 && final(p).errors@ == old(p).errors@,
        old(p).nth(2) == TokenKind::Ident && old(p).nth(3) != TokenKind::Semi && old(p).nth(3)
            != TokenKind::AsKw ==> final(p).pos == old(p).pos + 3 && final(p).errors@
            == old(p).errors@.push(
            Diagnostic { pos: (old(p).pos + 3) as usize, msg: ErrMsg::Expected(TokenKind::Semi) },
        ) && final(p).events@ == old(p).events@
            + seq![
            Event::Token(TokenKind::ExternKw),
            Event::Token(TokenKind::CrateKw),
            Event::Token(TokenKind::Ident),
        ],
        old(p).nth(2) == TokenKind::Ident && old(p).nth(3) == TokenKind::AsKw && old(p).nth(4)
            == TokenKind::Ident && old(p).nth(5) != TokenKind::Semi ==> final(p).pos == old(p).pos
            + 5 && final(p).errors@ == old(p).errors@.push(
            Diagnostic { pos: (old(p).pos + 5) as usize, msg: ErrMsg::Expected(TokenKind::Semi) },
        ) && final(p).events@ == old(p).events@
            + seq![
            Event::Token(TokenKind::ExternKw),
            Event::Token(TokenKind::CrateKw),
            Event::Token(TokenKind::Ident),
            Event::Token(TokenKind::AsKw),
            Event::Token(TokenKind::Ident),
        ],
        old(p).nth(2) != TokenKind::Ident ==> final(p).pos == old(p).pos + 2 && final(p).errors@
            == old(p).errors@.push(
            Diagnostic { pos: (old(p).pos + 2) as usize, msg: ErrMsg::Expected(TokenKind::Ident) },
        ),
{
    p.bump();
    p.bump();
    if p.expect(TokenKind::Ident) {
        if alias(p) {
            p.expect(TokenKind::Semi);
        }
    }
    proof {
        if old(p).nth(2) == TokenKind::Ident && old(p).nth(3) != TokenKind::Semi && old(p).nth(3)
            != TokenKind::AsKw {
            assert(p.events@ =~= old(p).events@
                + seq![
                Event::Token(TokenKind::ExternKw),
                Event::Token(TokenKind::CrateKw),
                Event::Token(TokenKind::Ident),
            ]);
        }
        if old(p).nth(2) == TokenKind::Ident && old(p).nth(3) == TokenKind::AsKw && old(p).nth(4)
            == TokenKind::Ident && old(p).nth(5) != TokenKind::Semi {
            assert(p.events@ =~= old(p).events@
                + seq![
                Event::Token(TokenKind::ExternKw),
                Event::Token(TokenKind::CrateKw),
                Event::Token(TokenKind::Ident),
                Event::Token(TokenKind::AsKw),
                Event::Token(TokenKind::Ident),
            ]);
        }
    }
}

/// One use-tree: a glob (`*` or `::*`), a nested group (`{..}` or `::{..}`),
/// or a path optionally followed by an alias, a glob, or a nested group. On a
/// token that starts none of these, the node is abandoned, the mismatch
/// reported, and one token consumed.
#[verifier::rlimit(80)]
pub fn use_tree(p: &mut Parser)
    requires
        old(p).wf(),
    ensures
        extends(*old(p), *final(p)),
        no_dispatch_diags(*old(p), *final(p)),
        old(p).pos < old(p).tokens@.len() ==> final(p).pos > old(p).pos,
        simple_tree_len(old(p).tokens@, old(p).pos as int) > 0 ==> final(p).pos == old(p).pos
            + simple_tree_len(old(p).tokens@, old(p).pos as int) && final(p).errors@ == old(
            p,
        ).errors@ && final(p).events@ == old(p).events@ + simple_tree_events(
            old(p).tokens@,
            old(p).pos as int,
        ),
        forall|j: int|
            old(p).cur() == TokenKind::LCurly && old(p).pos + 1 <= j && wf_simple_list(
                old(p).tokens@,
                old(p).pos + 1,
                j,
            ) && tok_at(old(p).tokens@, j) == TokenKind::RCurly ==> final(p).pos == j + 1 && final(p).errors@ == old(p).errors@ && final(p).events@ == old(p).events@
                + seq![Event::Open(NodeKind::UseTree), Event::Token(TokenKind::LCurly)]
                + simple_list_events(old(p).tokens@, old(p).pos + 1, j)
                + seq![Event::Token(TokenKind::RCurly), Event::Close],
        forall|j: int|
            path_segment_start(old(p).cur()) && old(p).nth(1) == TokenKind::ColonColon && old(
                p,
            ).nth(2) == TokenKind::LCurly && old(p).pos + 3 <= j && wf_simple_list(
                old(p).tokens@,
                old(p).pos + 3,
                j,
            ) && tok_at(old(p).tokens@, j) == TokenKind::RCurly ==> final(p).pos == j + 1 && final(p).errors@ == old(p).errors@ && final(p).events@ == old(p).events@
                + seq![
                Event::Open(NodeKind::UseTree),
                Event::Token(old(p).cur()),
                Event::Token(TokenKind::ColonColon),
                Event::Token(TokenKind::LCurly),
            ] + simple_list_events(old(p).tokens@, old(p).pos + 3, j)
                + seq![Event::Token(TokenKind::RCurly), Event::Close],
        forall|j: int|
            old(p).cur() == TokenKind::ColonColon && old(p).nth(1) == TokenKind::LCurly && old(
                p,
            ).pos + 2 <= j && wf_simple_list(old(p).tokens@, old(p).pos + 2, j) && tok_at(
                old(p).tokens@,
                j,
            ) == TokenKind::RCurly ==> final(p).pos == j + 1 && final(p).errors@ == old(p).errors@
                && final(p).events@ == old(p).events@
                + seq![
                Event::Open(NodeKind::UseTree),
                Event::Token(TokenKind::ColonColon),
                Event::Token(TokenKind::LCurly),
            ] + simple_list_events(old(p).tokens@, old(p).pos + 2, j)
                + seq![Event::Token(TokenKind::RCurly), Event::Close],
        use_tree_first(old(p).cur()) ==> final(p).events@.len() > old(p).events@.len()
            && final(p).events@[old(p).events@.len() as int] == Event::Open(NodeKind::UseTree)
            && final(p).events@.last() == Event::Close,
        !use_tree_first(old(p).cur()) ==> final(p).errors@ == old(p).errors@.push(
            Diagnostic { pos: old(p).pos, msg: ErrMsg::ExpectedUseTree },
        ) && (old(p).pos < old(p).tokens@.len() ==> final(p).events@ == old(p).events@.push(
            Event::Tombstone,
        ).push(Event::Token(old(p).cur()))) && (old(p).pos >= old(p).tokens@.len()
            ==> final(p).events@ == old(p).events@.push(Event::Tombstone) && final(p).pos == old(p).pos),
    decreases p.tokens@.len() - p.pos, 1int,
{
    let cur = p.current();
    let la = p.raw_lookahead(1);
    let m = p.start();
    if cur == TokenKind::Star {
        p.bump();
    } else if cur == TokenKind::ColonColon && la == TokenKind::Star {
        p.bump();
        p.bump();
    } else if cur == TokenKind::LCurly || (cur == TokenKind::ColonColon && la
        == TokenKind::LCurly) {
        if p.at(TokenKind::ColonColon) {
            p.bump();
        }
        nested_trees(p);
    } else if p.at(TokenKind::Ident) || p.at(TokenKind::SelfKw) || p.at(TokenKind::SuperKw) || p.at(
        TokenKind::ColonColon,
    ) {
        use_path(p);
        if p.at(TokenKind::AsKw) {
            alias(p);
        } else if p.at(TokenKind::ColonColon) {
            p.bump();
            if p.at(TokenKind::Star) {
                p.bump();
            } else if p.at(TokenKind::LCurly) {
                nested_trees(p);
            } else {
                p.error(ErrMsg::ExpectedCurlyOrStar);
            }
        }
    } else {
        m.abandon(p);
        p.err_and_bump(ErrMsg::ExpectedUseTree);
        proof {
            assert(p.open_markers@ =~= old(p).open_markers@);
        }
        return ;
    }
    m.complete(p, NodeKind::UseTree);
    proof {
        assert(p.open_markers@ =~= old(p).open_markers@);
        let t = old(p).tokens@;
        let i0 = old(p).pos as int;
        if simple_tree_len(t, i0) > 0 {
            assert(p.events@ =~= old(p).events@ + simple_tree_events(t, i0));
        }
        assert forall|j: int|
            old(p).cur() == TokenKind::LCurly && i0 + 1 <= j && wf_simple_list(t, i0 + 1, j)
                && tok_at(t, j) == TokenKind::RCurly implies p.pos == j + 1 && p.errors@ == old(
            p,
        ).errors@ && p.events@ == old(p).events@
            + seq![Event::Open(NodeKind::UseTree), Event::Token(TokenKind::LCurly)]
            + simple_list_events(t, i0 + 1, j) + seq![Event::Token(TokenKind::RCurly), Event::Close] by {
            assert(p.events@ =~= old(p).events@
                + seq![Event::Open(NodeKind::UseTree), Event::Token(TokenKind::LCurly)]
                + simple_list_events(t, i0 + 1, j)
                + seq![Event::Token(TokenKind::RCurly), Event::Close]);
        }
        assert forall|j: int|
            path_segment_start(old(p).cur()) && old(p).nth(1) == TokenKind::ColonColon && old(
                p,
            ).nth(2) == TokenKind::LCurly && i0 + 3 <= j && wf_simple_list(t, i0 + 3, j) && tok_at(
                t,
                j,
            ) == TokenKind::RCurly implies p.pos == j + 1 && p.errors@ == old(p).errors@
            && p.events@ == old(p).events@
            + seq![
            Event::Open(NodeKind::UseTree),
            Event::Token(old(p).cur()),
            Event::Token(TokenKind::ColonColon),
            Event::Token(TokenKind::LCurly),
        ] + simple_list_events(t, i0 + 3, j) + seq![Event::Token(TokenKind::RCurly), Event::Close] by {
            assert(p.events@ =~= old(p).events@
                + seq![
                Event::Open(NodeKind::UseTree),
                Event::Token(old(p).cur()),
                Event::Token(TokenKind::ColonColon),
                Event::Token(TokenKind::LCurly),
            ] + simple_list_events(t, i0 + 3, j)
                + seq![Event::Token(TokenKind::RCurly), Event::Close]);
        }
        assert forall|j: int|
            old(p).cur() == TokenKind::ColonColon && old(p).nth(1) == TokenKind::LCurly && i0 + 2
                <= j && wf_simple_list(t, i0 + 2, j) && tok_at(t, j) == TokenKind::RCurly implies p.pos
            == j + 1 && p.errors@ == old(p).errors@ && p.events@ == old(p).events@
            + seq![
            Event::Open(NodeKind::UseTree),
            Event::Token(TokenKind::ColonColon),
            Event::Token(TokenKind::LCurly),
        ] + simple_list_events(t, i0 + 2, j) + seq![Event::Token(TokenKind::RCurly), Event::Close] by {
            assert(p.events@ =~= old(p).events@
                + seq![
                Event::Open(NodeKind::UseTree),
                Event::Token(TokenKind::ColonColon),
                Event::Token(TokenKind::LCurly),
            ] + simple_list_events(t, i0 + 2, j)
                + seq![Event::Token(TokenKind::RCurly), Event::Close]);
        }
    }
}

/// A nested use-tree group: `{`, comma-separated use-trees, `}`. Stops at the
/// closing brace or at the end of input.
fn nested_trees(p: &mut Parser)
    requires
        old(p).wf(),
        old(p).cur() == TokenKind::LCurly,
    ensures
        extends(*old(p), *final(p)),
        no_dispatch_diags(*old(p), *final(p)),
        final(p).pos > old(p).pos,
        final(p).pos == final(p).tokens@.len() || final(p).tokens@[final(p).pos - 1]
            == TokenKind::RCurly,
        forall|j: int|
            old(p).pos + 1 <= j && wf_simple_list(old(p).tokens@, old(p).pos + 1, j) && tok_at(
                old(p).tokens@,
                j,
            ) == TokenKind::RCurly ==> final(p).pos == j + 1 && final(p).errors@ == old(p).errors@
                && final(p).events@ == old(p).events@ + seq![Event::Token(TokenKind::LCurly)]
                + simple_list_events(old(p).tokens@, old(p).pos + 1, j)
                + seq![Event::Token(TokenKind::RCurly)],
    decreases p.tokens@.len() - p.pos, 0int,
{
    p.bump();
    nested_tree_list(p);
    p.expect(TokenKind::RCurly);
    proof {
        let t = old(p).tokens@;
        assert forall|j: int|
            old(p).pos + 1 <= j && wf_simple_list(t, old(p).pos + 1, j) && tok_at(t, j)
                == TokenKind::RCurly implies p.pos == j + 1 && p.errors@ == old(p).errors@
            && p.events@ == old(p).events@ + seq![Event::Token(TokenKind::LCurly)]
            + simple_list_events(t, old(p).pos + 1, j) + seq![Event::Token(TokenKind::RCurly)] by {
            assert(p.events@ =~= old(p).events@ + seq![Event::Token(TokenKind::LCurly)]
                + simple_list_events(t, old(p).pos + 1, j)
                + seq![Event::Token(TokenKind::RCurly)]);
        }
    }
}

/// The comma-separated use-trees of a nested group, up to the closing brace
/// or the end of input.
fn nested_tree_list(p: &mut Parser)
    requires
        old(p).wf(),
    ensures
        extends(*old(p), *final(p)),
        no_dispatch_diags(*old(p), *final(p)),
        final(p).pos == final(p).tokens@.len() || final(p).cur() == TokenKind::RCurly,
        forall|j: int|
            old(p).pos <= j && wf_simple_list(old(p).tokens@, old(p).pos as int, j) && tok_at(
                old(p).tokens@,
                j,
            ) == TokenKind::RCurly ==> final(p).pos == j && final(p).errors@ == old(p).errors@
                && final(p).events@ == old(p).events@ + simple_list_events(
                old(p).tokens@,
                old(p).pos as int,
                j,
            ),
    decreases p.tokens@.len() - p.pos, 2int,
{
    if !p.at(TokenKind::Eof) && !p.at(TokenKind::RCurly) {
        use_tree(p);
        if !p.at(TokenKind::RCurly) {
            p.expect(TokenKind::Comma);
        }
        let ghost mid = *p;
        nested_tree_list(p);
        proof {
            let t = old(p).tokens@;
            let i0 = old(p).pos as int;
            assert forall|j: int|
                i0 <= j && wf_simple_list(t, i0, j) && tok_at(t, j) == TokenKind::RCurly implies p.pos
                == j && p.errors@ == old(p).errors@ && p.events@ == old(p).events@
                + simple_list_events(t, i0, j) by {
                let l = simple_tree_len(t, i0);
                if i0 + l == j {
                    assert(wf_simple_list(t, j, j));
                    assert(p.events@ =~= old(p).events@ + simple_list_events(t, i0, j));
                } else {
                    assert(wf_simple_list(t, i0 + l + 1, j));
                    assert(mid.pos == i0 + l + 1);
                    assert(p.events@ =~= old(p).events@ + simple_list_events(t, i0, j));
                }
            }
        }
    } else {
        proof {
            let t = old(p).tokens@;
            let i0 = old(p).pos as int;
            assert forall|j: int|
                i0 <= j && wf_simple_list(t, i0, j) && tok_at(t, j) == TokenKind::RCurly implies p.pos
                == j && p.errors@ == old(p).errors@ && p.events@ == old(p).events@
                + simple_list_events(t, i0, j) by {
                assert(p.events@ =~= old(p).events@ + simple_list_events(t, i0, j));
            }
        }
    }
}

/// A use item: the keyword, one use-tree, and a required terminating `;`.
pub fn use_item(p: &mut Parser)
    requires
        old(p).wf(),
        old(p).cur() == TokenKind::UseKw,
    ensures
        extends(*old(p), *final(p)),
        final(p).pos > old(p).pos,
        no_dispatch_diags(*old(p), *final(p)),
        use_tree_first(old(p).nth(1)) ==> final(p).events@[old(p).events@.len() as int + 1]
            == Event::Open(NodeKind::UseTree),
        simple_tree_len(old(p).tokens@, old(p).pos + 1) > 0 && tok_at(
            old(p).tokens@,
            old(p).pos + 1 + simple_tree_len(old(p).tokens@, old(p).pos + 1),
        ) == TokenKind::Semi ==> final(p).pos == old(p).pos + 2 + simple_tree_len(
            old(p).tokens@,
            old(p).pos + 1,
        ) && final(p).errors@ == old(p).errors@ && final(p).events@ == old(p).events@
            + seq![Event::Token(TokenKind::UseKw)] + simple_tree_events(
            old(p).tokens@,
            old(p).pos + 1,
        ) + seq![Event::Token(TokenKind::Semi)],
        simple_tree_len(old(p).tokens@, old(p).pos + 1) > 0 && tok_at(
            old(p).tokens@,
            old(p).pos + 1 + simple_tree_len(old(p).tokens@, old(p).pos + 1),
        ) != TokenKind::Semi ==> final(p).pos == old(p).pos + 1 + simple_tree_len(
            old(p).tokens@,
            old(p).pos + 1,
        ) && final(p).errors@ == old(p).errors@.push(
            Diagnostic {
                pos: (old(p).pos + 1 + simple_tree_len(old(p).tokens@, old(p).pos + 1)) as usize,
                msg: ErrMsg::Expected(TokenKind::Semi),
            },
        ) && final(p).events@ == old(p).events@ + seq![Event::Token(TokenKind::UseKw)]
            + simple_tree_events(old(p).tokens@, old(p).pos + 1),
        forall|j: int|
            path_segment_start(old(p).nth(1)) && old(p).nth(2) == TokenKind::ColonColon && old(
                p,
            ).nth(3) == TokenKind::LCurly && old(p).pos + 4 <= j && #[trigger] wf_simple_list(old(p).tokens@, old(p).pos + 4, j) && tok_at(old(p).tokens@, j) == TokenKind::RCurly && tok_at(old(p).tokens@, j + 1)
                == TokenKind::Semi ==> final(p).pos == j + 2 && final(p).errors@ == old(p).errors@
                && final(p).events@ == old(p).events@
                + seq![
                Event::Token(TokenKind::UseKw),
                Event::Open(NodeKind::UseTree),
                Event::Token(old(p).nth(1)),
                Event::Token(TokenKind::ColonColon),
                Event::Token(TokenKind::LCurly),
            ] + simple_list_events(old(p).tokens@, old(p).pos + 4, j)
                + seq![
                Event::Token(TokenKind::RCurly),
                Event::Close,
                Event::Token(TokenKind::Semi),
            ],
        forall|j: int|
            path_segment_start(old(p).nth(1)) && old(p).nth(2) == TokenKind::ColonColon && old(
                p,
            ).nth(3) == TokenKind::LCurly && old(p).pos + 4 <= j
                && #[trigger] wf_simple_list(old(p).tokens@, old(p).pos + 4, j) && tok_at(
                old(p).tokens@,
                j,
            ) == TokenKind::RCurly && tok_at(old(p).tokens@, j + 1) != TokenKind::Semi ==> final(p).pos == j + 1 && final(p).errors@ == old(p).errors@.push(
                Diagnostic { pos: (j + 1) as usize, msg: ErrMsg::Expected(TokenKind::Semi) },
            ),
{
    p.bump();
    use_tree(p);
    let ghost after_tree = *p;
    p.expect(TokenKind::Semi);
    proof {
        let t = old(p).tokens@;
        let i1 = old(p).pos + 1;
        if simple_tree_len(t, i1) > 0 && tok_at(t, i1 + simple_tree_len(t, i1))
            == TokenKind::Semi {
            assert(p.events@ =~= old(p).events@ + seq![Event::Token(TokenKind::UseKw)]
                + simple_tree_events(t, i1) + seq![Event::Token(TokenKind::Semi)]);
        }
        if simple_tree_len(t, i1) > 0 && tok_at(t, i1 + simple_tree_len(t, i1))
            != TokenKind::Semi {
            assert(p.events@ =~= old(p).events@ + seq![Event::Token(TokenKind::UseKw)]
                + simple_tree_events(t, i1));
        }
        assert forall|j: int|
            path_segment_start(old(p).nth(1)) && old(p).nth(2) == TokenKind::ColonColon && old(
                p,
            ).nth(3) == TokenKind::LCurly && old(p).pos + 4 <= j && #[trigger] wf_simple_list(t, old(p).pos + 4, j)
                && tok_at(t, j) == TokenKind::RCurly && tok_at(t, j + 1) == TokenKind::Semi implies p.pos
            == j + 2 && p.errors@ == old(p).errors@ && p.events@ == old(p).events@
            + seq![
            Event::Token(TokenKind::UseKw),
            Event::Open(NodeKind::UseTree),
            Event::Token(old(p).nth(1)),
            Event::Token(TokenKind::ColonColon),
            Event::Token(TokenKind::LCurly),
        ] + simple_list_events(t, old(p).pos + 4, j)
            + seq![
            Event::Token(TokenKind::RCurly),
            Event::Close,
            Event::Token(TokenKind::Semi),
        ] by {
            assert(after_tree.pos == j + 1);
            assert(p.events@ =~= old(p).events@
                + seq![
                Event::Token(TokenKind::UseKw),
                Event::Open(NodeKind::UseTree),
                Event::Token(old(p).nth(1)),
                Event::Token(TokenKind::ColonColon),
                Event::Token(TokenKind::LCurly),
            ] + simple_list_events(t, old(p).pos + 4, j)
                + seq![
                Event::Token(TokenKind::RCurly),
                Event::Close,
                Event::Token(TokenKind::Semi),
            ]);
        }
        assert forall|j: int|
            path_segment_start(old(p).nth(1)) && old(p).nth(2) == TokenKind::ColonColon && old(
                p,
            ).nth(3) == TokenKind::LCurly && old(p).pos + 4 <= j && #[trigger] wf_simple_list(
                t,
                old(p).pos + 4,
                j,
            ) && tok_at(t, j) == TokenKind::RCurly && tok_at(t, j + 1) != TokenKind::Semi implies p.pos
            == j + 1 && p.errors@ == old(p).errors@.push(
            Diagnostic { pos: (j + 1) as usize, msg: ErrMsg::Expected(TokenKind::Semi) },
        ) by {
            assert(after_tree.pos == j + 1);
        }
    }
}

/// A mod item: the keyword and a required name, then either `;` (a
/// file-reference module) or a braced body parsed as module contents up to
/// the closing brace.
pub fn mod_item(p: &mut Parser)
    requires
        old(p).wf(),
        old(p).cur() == TokenKind::ModKw,
    ensures
        extends(*old(p), *final(p)),
        final(p).pos > old(p).pos,
        old(p).nth(1) == TokenKind::Ident && old(p).nth(2) == TokenKind::Semi ==> final(p).pos
            == old(p).pos + 3 && final(p).errors@ == old(p).errors@,
        old(p).nth(1) == TokenKind::Ident && old(p).nth(2) == TokenKind::LCurly ==> final(p).pos
            > old(p).pos + 2 && (final(p).pos == final(p).tokens@.len() || final(p).tokens@[final(p).pos - 1] == TokenKind::RCurly) && final(p).events@[old(
            p,
        ).events@.len() as int] == Event::Token(TokenKind::ModKw) && final(p).events@[old(
            p,
        ).events@.len() as int + 1] == Event::Token(TokenKind::Ident) && final(p).events@[old(
            p,
        ).events@.len() as int + 2] == Event::Token(TokenKind::LCurly),
        old(p).nth(1) != TokenKind::Ident ==> final(p).pos == old(p).pos + 1 && final(p).errors@
            == old(p).errors@.push(
            Diagnostic { pos: (old(p).pos + 1) as usize, msg: ErrMsg::Expected(TokenKind::Ident) },
        ),
    decreases p.tokens@.len() - p.pos, 0int,
{
    p.bump();
    if p.expect(TokenKind::Ident) {
        if !p.eat(TokenKind::Semi) {
            if p.expect(TokenKind::LCurly) {
                parse_module_contents(p, true);
                p.expect(TokenKind::RCurly);
            }
        }
    }
}

/// One item: a node is started, outer attributes and a visibility qualifier
/// are consumed, and the current token plus one token of lookahead routes to
/// exactly one production, whose kind completes the node. A token that starts
/// no production abandons the node, reports `item_error_message`, and
/// consumes exactly one token, so the driver always advances.
pub fn parse_item(p: &mut Parser)
    requires
        old(p).wf(),
    ensures
        extends(*old(p), *final(p)),
        old(p).pos < old(p).tokens@.len() ==> final(p).pos > old(p).pos,
        old(p).cur() != TokenKind::Pound && old(p).cur() != TokenKind::PubKw && item_kind_for(
            old(p).cur(),
            old(p).nth(1),
        ) is Some ==> final(p).events@.len() > old(p).events@.len()
            && final(p).events@[old(p).events@.len() as int] == Event::Open(item_kind_for(old(p).cur(), old(p).nth(1)).unwrap())
            && final(p).events@.last() == Event::Close,
        old(p).cur() != TokenKind::Pound && old(p).cur() != TokenKind::PubKw && old(p).cur()
            != TokenKind::ModKw && item_kind_for(old(p).cur(), old(p).nth(1)) is Some
            ==> no_dispatch_diags(*old(p), *final(p)),
        old(p).cur() != TokenKind::Pound && old(p).cur() != TokenKind::PubKw && item_kind_for(
            old(p).cur(),
            old(p).nth(1),
        ) is None ==> final(p).errors@ == old(p).errors@.push(
            Diagnostic { pos: old(p).pos, msg: item_error_message(old(p).cur()) },
        ) && (old(p).pos < old(p).tokens@.len() ==> final(p).pos == old(p).pos + 1
            && final(p).events@ == old(p).events@.push(Event::Tombstone).push(Event::Token(old(p).cur()))),
    decreases p.tokens@.len() - p.pos, 1int,
{
    let m = p.start();
    outer_attributes(p);
    visibility(p);
    let la = p.raw_lookahead(1);
    let cur = p.current();
    if cur == TokenKind::ExternKw && la == TokenKind::CrateKw {
        extern_crate_item(p);
        m.complete(p, NodeKind::ExternCrateItem);
    } else if cur == TokenKind::ModKw {
        mod_item(p);
        m.complete(p, NodeKind::ModItem);
    } else if cur == TokenKind::UseKw {
        use_item(p);
        m.complete(p, NodeKind::UseItem);
    } else if cur == TokenKind::StructKw {
        struct_item(p);
        m.complete(p, NodeKind::StructItem);
    } else if cur == TokenKind::FnKw {
        fn_item(p);
        m.complete(p, NodeKind::FnItem);
    } else {
        m.abandon(p);
        let msg = if cur == TokenKind::Semi {
            ErrMsg::ExpectedItemFoundSemi
        } else {
            ErrMsg::ExpectedItem
        };
        p.err_and_bump(msg);
        proof {
            assert(p.open_markers@ =~= old(p).open_markers@);
        }
        return ;
    }
    proof {
        assert(p.open_markers@ =~= old(p).open_markers@);
    }
}

/// The module-contents driver: consumes inner attributes, then items, until
/// the end of input or — when asked to stop at a closing brace — until the
/// next token is `}` (not consumed). Every input token is consumed exactly
/// once, and the log records them all in order.
pub fn parse_module_contents(p: &mut Parser, stop_on_close_brace: bool)
    requires
        old(p).wf(),
    ensures
        extends(*old(p), *final(p)),
        !stop_on_close_brace ==> final(p).pos == final(p).tokens@.len(),
        stop_on_close_brace ==> final(p).pos == final(p).tokens@.len() || final(p).cur()
            == TokenKind::RCurly,
        !stop_on_close_brace ==> token_events(final(p).events@) == final(p).tokens@,
        old(p).open_markers@.len() == 0 ==> balanced(final(p).events@),
    decreases p.tokens@.len() - p.pos, 3int,
{
    inner_attributes(p);
    item_list(p, stop_on_close_brace);
    proof {
        if !stop_on_close_brace {
            lemma_tokens_lossless(*p);
        }
        if old(p).open_markers@.len() == 0 {
            lemma_node_balance(*p);
        }
    }
}

/// The items of a module body, one after another, up to the end of input or —
/// when asked — up to a closing brace.
fn item_list(p: &mut Parser, stop_on_close_brace: bool)
    requires
        old(p).wf(),
    ensures
        extends(*old(p), *final(p)),
        !stop_on_close_brace ==> final(p).pos == final(p).tokens@.len(),
        stop_on_close_brace ==> final(p).pos == final(p).tokens@.len() || final(p).cur()
            == TokenKind::RCurly,
    decreases p.tokens@.len() - p.pos, 2int,
{
    if !p.at_end() && !(stop_on_close_brace && p.at(TokenKind::RCurly)) {
        parse_item(p);
        item_list(p, stop_on_close_brace);
    }
}

} // verus!
