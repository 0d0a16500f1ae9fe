//! Lexical categories and the first sets that drive item dispatch.

use vstd::prelude::*;

verus! {

/// A lexical category, as handed over by the tokenizer. `Eof` is the cursor's
/// end-of-input sentinel: it is what the cursor reports past the last token,
/// and it never occurs inside a token stream.
#[derive(Clone, Copy, PartialEq, Eq, Structural, Debug)]
pub enum TokenKind {
    ExternKw,
    CrateKw,
    ModKw,
    UseKw,
    StructKw,
    FnKw,
    PubKw,
    WhereKw,
    AsKw,
    SelfKw,
    SuperKw,
    Ident,
    Pound,
    Excl,
    Semi,
    Comma,
    Colon,
    ColonColon,
    Star,
    LCurly,
    RCurly,
    LParen,
    RParen,
    LBrack,
    RBrack,
    Eof,
}

/// The first set of items: the token kinds on which a caller may expect an
/// item to start (the five item keywords, a visibility qualifier, and an
/// attribute marker).
pub open spec fn item_first(k: TokenKind) -> bool {
    ||| k == TokenKind::ExternKw
    ||| k == TokenKind::ModKw
    ||| k == TokenKind::UseKw
    ||| k == TokenKind::StructKw
    ||| k == TokenKind::FnKw
    ||| k == TokenKind::PubKw
    ||| k == TokenKind::Pound
}

/// Membership test for the item first set.
pub fn item_first_contains(k: TokenKind) -> (b: bool)
    ensures
        b == item_first(k),
{
    k == TokenKind::ExternKw || k == TokenKind::ModKw || k == TokenKind::UseKw
        || k == TokenKind::StructKw || k == TokenKind::FnKw || k == TokenKind::PubKw
        || k == TokenKind::Pound
}

/// The token kinds that may begin a path (a segment, or a leading `::`).
pub open spec fn path_start(k: TokenKind) -> bool {
    ||| k == TokenKind::Ident
    ||| k == TokenKind::SelfKw
    ||| k == TokenKind::SuperKw
    ||| k == TokenKind::ColonColon
}

/// The token kinds that may stand as one path segment.
pub open spec fn path_segment_start(k: TokenKind) -> bool {
    ||| k == TokenKind::Ident
    ||| k == TokenKind::SelfKw
    ||| k == TokenKind::SuperKw
}

/// The token at `i`, the end-of-input sentinel past either end.
pub open spec fn tok_at(t: Seq<TokenKind>, i: int) -> TokenKind {
    if 0 <= i < t.len() {
        t[i]
    } else {
        TokenKind::Eof
    }
}

/// The token kinds on which a use-tree parse succeeds: a glob, a nested
/// group, or anything that starts a path.
pub open spec fn use_tree_first(k: TokenKind) -> bool {
    ||| k == TokenKind::Star
    ||| k == TokenKind::LCurly
    ||| path_start(k)
}

} // verus!
