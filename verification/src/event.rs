//! Tree-construction events and diagnostics.
//!
//! Parsing does not build a tree; it appends events to a log. A node begins
//! as a `Tombstone` placeholder; completing its marker turns the placeholder
//! into `Open(kind)` and appends a matching `Close`, while abandoning it
//! leaves the placeholder in place, so the children already logged stay as
//! siblings of the enclosing node. Consumed tokens appear as `Token` events,
//! which makes the log lossless.

use vstd::prelude::*;

use crate::token::TokenKind;

verus! {

/// Syntax-tree node categories: the five item kinds and the sub-node kinds
/// used by the struct and use grammars.
#[derive(Clone, Copy, PartialEq, Eq, Structural, Debug)]
pub enum NodeKind {
    ExternCrateItem,
    ModItem,
    UseItem,
    StructItem,
    FnItem,
    NamedField,
    PosField,
    UseTree,
}

/// One entry of the event log.
#[derive(Clone, Copy, PartialEq, Eq, Structural, Debug)]
pub enum Event {
    /// Placeholder pushed when a marker starts; it remains in the log when the
    /// marker is abandoned, and a tree builder skips it.
    Tombstone,
    /// A node of the given kind opens here.
    Open(NodeKind),
    /// A consumed token.
    Token(TokenKind),
    /// The most recently opened, still unclosed node closes here.
    Close,
}

/// The fixed diagnostic messages this grammar can emit.
#[derive(Clone, Copy, PartialEq, Eq, Structural, Debug)]
pub enum ErrMsg {
    /// "expected item"
    ExpectedItem,
    /// "expected item, found `;`\nconsider removing this semicolon"
    ExpectedItemFoundSemi,
    /// "expected <kind>", emitted by `expect` on a mismatch.
    Expected(TokenKind),
    /// "expected `;` or `{`"
    ExpectedSemiOrCurly,
    /// "expected `;`, `{`, or `(`"
    ExpectedSemiCurlyOrParen,
    /// "expected field declaration"
    ExpectedFieldDeclaration,
    /// "expected one of `*`, `::`, `{`, `self`, `super`, `indent`"
    ExpectedUseTree,
    /// "expected `{` or `*`"
    ExpectedCurlyOrStar,
    /// "expected function arguments"
    ExpectedFunctionArguments,
}

/// A message together with the token position at which it was emitted.
/// Diagnostics never stop the parse.
#[derive(Clone, Copy, PartialEq, Eq, Structural, Debug)]
pub struct Diagnostic {
    pub pos: usize,
    pub msg: ErrMsg,
}

/// Nesting contribution of one event: `Open` descends, `Close` ascends,
/// tokens and tombstones are neutral.
pub open spec fn ev_delta(e: Event) -> int {
    match e {
        Event::Open(_) => 1,
        Event::Close => -1,
        _ => 0,
    }
}

/// Sum of the nesting contributions of a log slice.
pub open spec fn ev_sum(s: Seq<Event>) -> int
    decreases s.len(),
{
    if s.len() == 0 {
        0
    } else {
        ev_sum(s.drop_last()) + ev_delta(s.last())
    }
}

/// No prefix of the slice closes more nodes than it has opened.
pub open spec fn ev_nonneg(s: Seq<Event>) -> bool {
    forall|i: int| 0 <= i <= s.len() ==> ev_sum(#[trigger] s.subrange(0, i)) >= 0
}

/// A well-nested log slice: opens and closes match exactly, and no prefix
/// closes a node it has not opened.
pub open spec fn balanced(s: Seq<Event>) -> bool {
    ev_sum(s) == 0 && ev_nonneg(s)
}

/// The tokens recorded in a log slice, in order.
pub open spec fn token_events(s: Seq<Event>) -> Seq<TokenKind>
    decreases s.len(),
{
    if s.len() == 0 {
        Seq::empty()
    } else {
        token_events(s.drop_last()) + (match s.last() {
            Event::Token(t) => seq![t],
            _ => Seq::<TokenKind>::empty(),
        })
    }
}

pub proof fn lemma_ev_sum_concat(a: Seq<Event>, b: Seq<Event>)
    ensures
        ev_sum(a + b) == ev_sum(a) + ev_sum(b),
    decreases b.len(),
{
    if b.len() == 0 {
        assert(a + b =~= a);
    } else {
        assert((a + b).drop_last() =~= a + b.drop_last());
        lemma_ev_sum_concat(a, b.drop_last());
        assert((a + b).last() == b.last());
    }
}

pub proof fn lemma_ev_sum_singleton(e: Event)
    ensures
        ev_sum(seq![e]) == ev_delta(e),
{
    assert(ev_sum(Seq::<Event>::empty()) == 0);
    assert(seq![e].drop_last() =~= Seq::<Event>::empty());
    assert(seq![e].last() == e);
}

pub proof fn lemma_balanced_empty()
    ensures
        balanced(Seq::<Event>::empty()),
{
    assert forall|i: int| 0 <= i <= 0 implies ev_sum(
        #[trigger] Seq::<Event>::empty().subrange(0, i),
    ) >= 0 by {
        assert(Seq::<Event>::empty().subrange(0, i) =~= Seq::<Event>::empty());
    }
}

pub proof fn lemma_balanced_concat(a: Seq<Event>, b: Seq<Event>)
    requires
        balanced(a),
        balanced(b),
    ensures
        balanced(a + b),
{
    lemma_ev_sum_concat(a, b);
    assert forall|i: int| 0 <= i <= (a + b).len() implies ev_sum(
        #[trigger] (a + b).subrange(0, i),
    ) >= 0 by {
        if i <= a.len() {
            assert((a + b).subrange(0, i) =~= a.subrange(0, i));
        } else {
            assert((a + b).subrange(0, i) =~= a + b.subrange(0, i - a.len()));
            lemma_ev_sum_concat(a, b.subrange(0, i - a.len()));
        }
    }
}

/// A single neutral event forms a balanced slice.
pub proof fn lemma_balanced_neutral(e: Event)
    requires
        ev_delta(e) == 0,
    ensures
        balanced(seq![e]),
{
    lemma_ev_sum_singleton(e);
    assert forall|i: int| 0 <= i <= 1 implies ev_sum(#[trigger] seq![e].subrange(0, i)) >= 0 by {
        if i == 0 {
            assert(seq![e].subrange(0, i) =~= Seq::<Event>::empty());
        } else {
            assert(seq![e].subrange(0, i) =~= seq![e]);
        }
    }
}

/// Appending a neutral event keeps a slice balanced.
pub proof fn lemma_balanced_push_neutral(s: Seq<Event>, e: Event)
    requires
        balanced(s),
        ev_delta(e) == 0,
    ensures
        balanced(s.push(e)),
{
    lemma_balanced_neutral(e);
    lemma_balanced_concat(s, seq![e]);
    assert(s.push(e) =~= s + seq![e]);
}

/// Wrapping a balanced slice in an `Open`/`Close` pair keeps it balanced.
pub proof fn lemma_balanced_wrap(k: NodeKind, b: Seq<Event>)
    requires
        balanced(b),
    ensures
        balanced(seq![Event::Open(k)] + b + seq![Event::Close]),
{
    let o = seq![Event::Open(k)];
    let c = seq![Event::Close];
    lemma_ev_sum_singleton(Event::Open(k));
    lemma_ev_sum_singleton(Event::Close);
    lemma_ev_sum_concat(o, b);
    lemma_ev_sum_concat(o + b, c);
    assert forall|i: int| 0 <= i <= (o + b + c).len() implies ev_sum(
        #[trigger] (o + b + c).subrange(0, i),
    ) >= 0 by {
        if i == 0 {
            assert((o + b + c).subrange(0, i) =~= Seq::<Event>::empty());
        } else if i <= 1 + b.len() {
            assert((o + b + c).subrange(0, i) =~= o + b.subrange(0, i - 1));
            lemma_ev_sum_concat(o, b.subrange(0, i - 1));
        } else {
            assert((o + b + c).subrange(0, i) =~= o + b + c);
        }
    }
}

/// Two balanced slices joined by a neutral event stay balanced: abandoning a
/// marker leaves its placeholder behind without unbalancing the log.
pub proof fn lemma_balanced_bridge(a: Seq<Event>, e: Event, b: Seq<Event>)
    requires
        balanced(a),
        balanced(b),
        ev_delta(e) == 0,
    ensures
        balanced(a + seq![e] + b),
{
    lemma_balanced_neutral(e);
    lemma_balanced_concat(a, seq![e]);
    lemma_balanced_concat(a + seq![e], b);
}

/// Two balanced slices wrapped as one node stay balanced: completing a marker
/// closes exactly what it opened.
pub proof fn lemma_balanced_complete(a: Seq<Event>, k: NodeKind, b: Seq<Event>)
    requires
        balanced(a),
        balanced(b),
    ensures
        balanced(a + seq![Event::Open(k)] + b + seq![Event::Close]),
{
    lemma_balanced_wrap(k, b);
    lemma_balanced_concat(a, seq![Event::Open(k)] + b + seq![Event::Close]);
    assert(a + (seq![Event::Open(k)] + b + seq![Event::Close]) =~= a + seq![Event::Open(k)] + b
        + seq![Event::Close]);
}

pub proof fn lemma_token_events_push_token(s: Seq<Event>, t: TokenKind)
    ensures
        token_events(s.push(Event::Token(t))) == token_events(s).push(t),
{
    assert(s.push(Event::Token(t)).drop_last() =~= s);
    assert(s.push(Event::Token(t)).last() == Event::Token(t));
    assert(token_events(s.push(Event::Token(t))) =~= token_events(s).push(t));
}

pub proof fn lemma_token_events_push_other(s: Seq<Event>, e: Event)
    requires
        !(e is Token),
    ensures
        token_events(s.push(e)) == token_events(s),
{
    assert(s.push(e).drop_last() =~= s);
    assert(s.push(e).last() == e);
    assert(token_events(s.push(e)) =~= token_events(s));
}

/// Replacing one non-token event by another leaves the recorded tokens as
/// they are: completing a marker rewrites its placeholder, never a token.
pub proof fn lemma_token_events_update(s: Seq<Event>, i: int, e: Event)
    requires
        0 <= i < s.len(),
        !(s[i] is Token),
        !(e is Token),
    ensures
        token_events(s.update(i, e)) == token_events(s),
    decreases s.len(),
{
    if i == s.len() - 1 {
        assert(s.update(i, e).drop_last() =~= s.drop_last());
        assert(s.update(i, e).last() == e);
        assert(s.last() == s[i]);
        assert(token_events(s.update(i, e)) =~= token_events(s));
    } else {
        assert(s.update(i, e).drop_last() =~= s.drop_last().update(i, e));
        lemma_token_events_update(s.drop_last(), i, e);
        assert(s.update(i, e).last() == s.last());
        assert(token_events(s.update(i, e)) =~= token_events(s));
    }
}

} // verus!
