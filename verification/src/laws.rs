//! The grammar's global guarantees, stated over the parser's model.

use vstd::prelude::*;

use crate::event::{balanced, token_events, ErrMsg};
use crate::grammar::{item_error_message, item_kind_for};
use crate::parser::Parser;
use crate::token::{item_first, TokenKind};

verus! {

/// Node balance: once no marker is open, the whole event log is well nested —
/// every node that was opened was closed exactly once, abandoned placeholders
/// included as neutral entries.
pub proof fn lemma_node_balance(p: Parser)
    requires
        p.wf(),
        p.open_markers@.len() == 0,
    ensures
        balanced(p.events@),
{
    assert(p.seg(0) =~= p.events@);
    assert(balanced(p.seg(0)));
}

/// Losslessness: when the parse has reached the end of input, the log records
/// every input token exactly once, in order — none skipped, none doubled.
pub proof fn lemma_tokens_lossless(p: Parser)
    requires
        p.wf(),
        p.pos == p.tokens@.len(),
    ensures
        token_events(p.events@) == p.tokens@,
{
    assert(p.tokens@.subrange(0, p.tokens@.len() as int) =~= p.tokens@);
}

/// Dispatch exhaustiveness: every token of the item first set is routed —
/// the keywords to their productions (`extern` needs `crate` as lookahead),
/// attribute markers and visibility qualifiers to their prefix grammars —
/// and every token outside the set selects no production and gets the
/// expected-item diagnostic, specialized for a stray `;`; `parse_item`'s
/// contract adds that this error path consumes exactly one token, and that a
/// routed production other than a module body never emits an expected-item
/// diagnostic of its own (`no_dispatch_diags`).
pub proof fn lemma_dispatch_exhaustive(cur: TokenKind, la: TokenKind)
    ensures
        item_first(cur) && cur != TokenKind::Pound && cur != TokenKind::PubKw && (cur
            != TokenKind::ExternKw || la == TokenKind::CrateKw) ==> item_kind_for(cur, la) is Some,
        !item_first(cur) ==> item_kind_for(cur, la) is None,
        !item_first(cur) && cur != TokenKind::Semi ==> item_error_message(cur)
            == ErrMsg::ExpectedItem,
        cur == TokenKind::Semi ==> item_error_message(cur) == ErrMsg::ExpectedItemFoundSemi,
{
}

/// Idempotent error recovery: the diagnostic of the dispatcher's recovery
/// path depends on the offending token kind alone, so the same malformed
/// token met twice — two stray `;` in a row, say — yields two structurally
/// identical diagnostics, each at its own position; by `parse_item`'s
/// contract each occurrence emits exactly one of them and consumes exactly
/// one token, neither merged nor doubled.
pub proof fn lemma_idempotent_error_recovery(k1: TokenKind, k2: TokenKind)
    requires
        k1 == k2,
    ensures
        item_error_message(k1) == item_error_message(k2),
{
}

} // verus!
