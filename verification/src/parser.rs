//! The token cursor, the event log, and the marker protocol.
//!
//! A `Parser` owns the token stream, the current position, the event log, the
//! diagnostics, and the stack of still-open markers. Well-formedness
//! (`Parser::wf`) states the central invariants: the position never passes the
//! end, the log records exactly the consumed tokens in order, the open markers
//! are placeholders in ascending order, and the log between consecutive open
//! markers is well nested. Every primitive preserves `wf`.

use vstd::pervasive::VecAdditionalExecFns;
use vstd::prelude::*;

use crate::event::{
    balanced, ev_delta, lemma_balanced_bridge, lemma_balanced_complete, lemma_balanced_empty,
    lemma_balanced_push_neutral, lemma_token_events_push_other, lemma_token_events_push_token,
    lemma_token_events_update, token_events, Diagnostic, ErrMsg, Event, NodeKind,
};
use crate::token::TokenKind;

verus! {

/// A handle to an in-progress node. It is not `Copy` and not `Clone`, and both
/// `complete` and `abandon` take it by value, so a marker reaches at most one
/// terminal state; that the marker stack is restored around every grammar call
/// rules out reaching none.
pub struct Marker {
    pub idx: usize,
}

pub struct Parser {
    pub tokens: Vec<TokenKind>,
    pub pos: usize,
    pub events: Vec<Event>,
    pub errors: Vec<Diagnostic>,
    pub open_markers: Vec<usize>,
}

impl Parser {
    /// Start of the log segment between open markers `k - 1` and `k`.
    pub open spec fn seg_lo(self, k: int) -> int {
        if k == 0 {
            0
        } else {
            self.open_markers@[k - 1] as int + 1
        }
    }

    /// End of the log segment before open marker `k`.
    pub open spec fn seg_hi(self, k: int) -> int {
        if k == self.open_markers@.len() {
            self.events@.len() as int
        } else {
            self.open_markers@[k] as int
        }
    }

    /// The log between consecutive open markers (placeholders excluded).
    pub open spec fn seg(self, k: int) -> Seq<Event> {
        self.events@.subrange(self.seg_lo(k), self.seg_hi(k))
    }

    /// The open markers are ascending placeholder positions, and the log
    /// between any two consecutive ones is well nested.
    pub open spec fn markers_ok(self) -> bool {
        &&& forall|k: int|
            0 <= k < self.open_markers@.len() ==> (#[trigger] self.open_markers@[k]) < self.events@.len()
        &&& forall|k: int, j: int|
            0 <= k < j < self.open_markers@.len() ==> self.open_markers@[k] < self.open_markers@[j]
        &&& forall|k: int|
            0 <= k < self.open_markers@.len() ==> self.events@[#[trigger] self.open_markers@[k] as int] is Tombstone
        &&& forall|k: int| 0 <= k <= self.open_markers@.len() ==> balanced(#[trigger] self.seg(k))
    }

    pub open spec fn wf(self) -> bool {
        &&& self.pos <= self.tokens@.len()
        &&& forall|i: int| 0 <= i < self.tokens@.len() ==> !((#[trigger] self.tokens@[i]) is Eof)
        &&& self.markers_ok()
        &&& token_events(self.events@) == self.tokens@.subrange(0, self.pos as int)
    }

    /// The current token kind; the end-of-input sentinel past the last token.
    pub open spec fn cur(self) -> TokenKind {
        if self.pos < self.tokens@.len() {
            self.tokens@[self.pos as int]
        } else {
            TokenKind::Eof
        }
    }

    /// The token kind `n` tokens ahead of the current one.
    pub open spec fn nth(self, n: int) -> TokenKind {
        if self.pos + n < self.tokens@.len() {
            self.tokens@[self.pos + n]
        } else {
            TokenKind::Eof
        }
    }

    pub fn new(tokens: Vec<TokenKind>) -> (p: Parser)
        requires
            forall|i: int| 0 <= i < tokens@.len() ==> !((#[trigger] tokens@[i]) is Eof),
        ensures
            p.wf(),
            p.tokens@ == tokens@,
            p.pos == 0,
            p.events@ == Seq::<Event>::empty(),
            p.errors@ == Seq::<Diagnostic>::empty(),
            p.open_markers@ == Seq::<usize>::empty(),
    {
        let p = Parser {
            tokens,
            pos: 0,
            events: Vec::new(),
            errors: Vec::new(),
            open_markers: Vec::new(),
        };
        proof {
            lemma_balanced_empty();
            assert forall|k: int| 0 <= k <= p.open_markers@.len() implies balanced(
                #[trigger] p.seg(k),
            ) by {
                assert(p.seg(k) =~= Seq::<Event>::empty());
            }
            assert(token_events(p.events@) =~= p.tokens@.subrange(0, 0));
        }
        p
    }

    pub fn current(&self) -> (k: TokenKind)
        ensures
            k == self.cur(),
    {
        if self.pos < self.tokens.len() {
            self.tokens[self.pos]
        } else {
            TokenKind::Eof
        }
    }

    /// One token of raw lookahead: the kind `n` tokens past the current one.
    pub fn raw_lookahead(&self, n: usize) -> (k: TokenKind)
        ensures
            k == self.nth(n as int),
    {
        if self.pos < self.tokens.len() && n < self.tokens.len() - self.pos {
            self.tokens[self.pos + n]
        } else {
            TokenKind::Eof
        }
    }

    pub fn at(&self, kind: TokenKind) -> (b: bool)
        ensures
            b == (self.cur() == kind),
    {
        self.current() == kind
    }

    pub fn at_end(&self) -> (b: bool)
        requires
            self.wf(),
        ensures
            b == (self.cur() == TokenKind::Eof),
    {
        self.pos >= self.tokens.len()
    }

    /// Consume the current token, recording it in the log.
    pub fn bump(&mut self)
        requires
            old(self).wf(),
            old(self).pos < old(self).tokens@.len(),
        ensures
            final(self).wf(),
            final(self).tokens@ == old(self).tokens@,
            final(self).pos == old(self).pos + 1,
            final(self).events@ == old(self).events@.push(Event::Token(old(self).cur())),
            final(self).errors@ == old(self).errors@,
            final(self).open_markers@ == old(self).open_markers@,
    {
        let ghost pre = *self;
        let n = self.tokens.len();
        let t = self.tokens[self.pos];
        self.events.push(Event::Token(t));
        assert(self.pos < n);
        self.pos = self.pos + 1;
        proof {
            lemma_token_events_push_token(pre.events@, t);
            assert(pre.tokens@.subrange(0, pre.pos as int).push(t) =~= self.tokens@.subrange(
                0,
                self.pos as int,
            ));
            assert forall|k: int| 0 <= k <= self.open_markers@.len() implies balanced(
                #[trigger] self.seg(k),
            ) by {
                if k < self.open_markers@.len() {
                    assert(self.seg(k) =~= pre.seg(k));
                } else {
                    assert(self.seg(k) =~= pre.seg(k).push(Event::Token(t)));
                    lemma_balanced_push_neutral(pre.seg(k), Event::Token(t));
                }
            }
        }
    }

    /// Consume the current token if it has the given kind.
    pub fn eat(&mut self, kind: TokenKind) -> (b: bool)
        requires
            old(self).wf(),
            !(kind is Eof),
        ensures
            final(self).wf(),
            b == (old(self).cur() == kind),
            final(self).tokens@ == old(self).tokens@,
            final(self).open_markers@ == old(self).open_markers@,
            final(self).errors@ == old(self).errors@,
            b ==> final(self).pos == old(self).pos + 1 && final(self).events@ == old(self).events@.push(Event::Token(kind)),
            !b ==> final(self).pos == old(self).pos && final(self).events@ == old(self).events@,
    {
        if self.at(kind) {
            self.bump();
            true
        } else {
            false
        }
    }

    /// Record a diagnostic at the current position.
    pub fn error(&mut self, msg: ErrMsg)
        requires
            old(self).wf(),
        ensures
            final(self).wf(),
            final(self).tokens@ == old(self).tokens@,
            final(self).pos == old(self).pos,
            final(self).events@ == old(self).events@,
            final(self).open_markers@ == old(self).open_markers@,
            final(self).errors@ == old(self).errors@.push(
                Diagnostic { pos: old(self).pos, msg },
            ),
    {
        let ghost pre = *self;
        let d = Diagnostic { pos: self.pos, msg };
        self.errors.push(d);
        proof {
            lemma_wf_congruence(pre, *self);
        }
    }

    /// Consume the current token if it has the given kind; otherwise record a
    /// diagnostic and consume nothing.
    pub fn expect(&mut self, kind: TokenKind) -> (b: bool)
        requires
            old(self).wf(),
            !(kind is Eof),
        ensures
            final(self).wf(),
            b == (old(self).cur() == kind),
            final(self).tokens@ == old(self).tokens@,
            final(self).open_markers@ == old(self).open_markers@,
            b ==> final(self).pos == old(self).pos + 1 && final(self).events@ == old(self).events@.push(Event::Token(kind)) && final(self).errors@ == old(self).errors@,
            !b ==> final(self).pos == old(self).pos && final(self).events@ == old(self).events@
                && final(self).errors@ == old(self).errors@.push(
                Diagnostic { pos: old(self).pos, msg: ErrMsg::Expected(kind) },
            ),
    {
        if self.eat(kind) {
            true
        } else {
            self.error(ErrMsg::Expected(kind));
            false
        }
    }

    /// Record a diagnostic and consume one token, the guaranteed forward step
    /// of every recovery path; at the end of input nothing can be consumed.
    pub fn err_and_bump(&mut self, msg: ErrMsg)
        requires
            old(self).wf(),
        ensures
            final(self).wf(),
            final(self).tokens@ == old(self).tokens@,
            final(self).open_markers@ == old(self).open_markers@,
            final(self).errors@ == old(self).errors@.push(
                Diagnostic { pos: old(self).pos, msg },
            ),
            old(self).pos < old(self).tokens@.len() ==> final(self).pos == old(self).pos + 1
                && final(self).events@ == old(self).events@.push(Event::Token(old(self).cur())),
            old(self).pos >= old(self).tokens@.len() ==> final(self).pos == old(self).pos
                && final(self).events@ == old(self).events@,
    {
        self.error(msg);
        if self.pos < self.tokens.len() {
            self.bump();
        }
    }

    /// Start a node: push a placeholder and return its marker.
    pub fn start(&mut self) -> (m: Marker)
        requires
            old(self).wf(),
        ensures
            final(self).wf(),
            m.idx == old(self).events@.len(),
            final(self).tokens@ == old(self).tokens@,
            final(self).pos == old(self).pos,
            final(self).errors@ == old(self).errors@,
            final(self).events@ == old(self).events@.push(Event::Tombstone),
            final(self).open_markers@ == old(self).open_markers@.push(m.idx),
    {
        let ghost pre = *self;
        let m = Marker { idx: self.events.len() };
        self.events.push(Event::Tombstone);
        self.open_markers.push(m.idx);
        proof {
            lemma_token_events_push_other(pre.events@, Event::Tombstone);
            let n = pre.open_markers@.len() as int;
            assert forall|k: int| 0 <= k <= self.open_markers@.len() implies balanced(
                #[trigger] self.seg(k),
            ) by {
                if k < n {
                    assert(self.seg(k) =~= pre.seg(k));
                } else if k == n {
                    assert(self.seg(k) =~= pre.seg(k));
                } else {
                    lemma_balanced_empty();
                    assert(self.seg(k) =~= Seq::<Event>::empty());
                }
            }
        }
        m
    }
}

impl Marker {
    /// Close this node with the given kind: the placeholder becomes its
    /// `Open` event and a matching `Close` is appended, so the children logged
    /// in between are wrapped exactly once.
    pub fn complete(self, p: &mut Parser, kind: NodeKind)
        requires
            old(p).wf(),
            old(p).open_markers@.len() > 0,
            old(p).open_markers@.last() == self.idx,
        ensures
            final(p).wf(),
            final(p).tokens@ == old(p).tokens@,
            final(p).pos == old(p).pos,
            final(p).errors@ == old(p).errors@,
            final(p).events@ == old(p).events@.update(self.idx as int, Event::Open(kind)).push(
                Event::Close,
            ),
            final(p).open_markers@ == old(p).open_markers@.drop_last(),
    {
        let ghost pre = *p;
        p.events.set(self.idx, Event::Open(kind));
        p.events.push(Event::Close);
        let _popped = p.open_markers.pop();
        proof {
            let idx = self.idx as int;
            let n = pre.open_markers@.len() as int;
            assert(pre.open_markers@[n - 1] == self.idx);
            lemma_token_events_update(pre.events@, idx, Event::Open(kind));
            lemma_token_events_push_other(
                pre.events@.update(idx, Event::Open(kind)),
                Event::Close,
            );
            assert(self.idx < pre.events@.len());
            assert forall|k: int| 0 <= k <= p.open_markers@.len() implies balanced(
                #[trigger] p.seg(k),
            ) by {
                if k < n - 1 {
                    assert(pre.open_markers@[k] < pre.open_markers@[n - 1]);
                    assert(p.seg(k) =~= pre.seg(k));
                } else {
                    assert(p.seg(k) =~= pre.seg(n - 1) + seq![Event::Open(kind)] + pre.seg(n)
                        + seq![Event::Close]);
                    lemma_balanced_complete(pre.seg(n - 1), kind, pre.seg(n));
                }
            }
        }
    }

    /// Discard this node: the placeholder stays in the log, so the children
    /// already logged remain as siblings of the enclosing node and no consumed
    /// token is lost.
    pub fn abandon(self, p: &mut Parser)
        requires
            old(p).wf(),
            old(p).open_markers@.len() > 0,
            old(p).open_markers@.last() == self.idx,
        ensures
            final(p).wf(),
            final(p).tokens@ == old(p).tokens@,
            final(p).pos == old(p).pos,
            final(p).errors@ == old(p).errors@,
            final(p).events@ == old(p).events@,
            final(p).open_markers@ == old(p).open_markers@.drop_last(),
    {
        let ghost pre = *p;
        let _popped = p.open_markers.pop();
        proof {
            let idx = self.idx as int;
            let n = pre.open_markers@.len() as int;
            assert(pre.open_markers@[n - 1] == self.idx);
            assert(pre.events@[idx] is Tombstone);
            assert forall|k: int| 0 <= k <= p.open_markers@.len() implies balanced(
                #[trigger] p.seg(k),
            ) by {
                if k < n - 1 {
                    assert(p.seg(k) =~= pre.seg(k));
                } else {
                    assert(p.seg(k) =~= pre.seg(n - 1) + seq![pre.events@[idx]] + pre.seg(n));
                    lemma_balanced_bridge(pre.seg(n - 1), pre.events@[idx], pre.seg(n));
                }
            }
        }
    }
}

/// Well-formedness reads only the tokens, the position, the log and the open
/// markers; two states that agree on those are equally well formed.
pub proof fn lemma_wf_congruence(a: Parser, b: Parser)
    requires
        a.wf(),
        b.tokens@ == a.tokens@,
        b.pos == a.pos,
        b.events@ == a.events@,
        b.open_markers@ == a.open_markers@,
    ensures
        b.wf(),
{
    assert forall|k: int| 0 <= k <= b.open_markers@.len() implies balanced(#[trigger] b.seg(k)) by {
        assert(b.seg(k) =~= a.seg(k));
    }
}

/// How one parser state may follow from another across any grammar call:
/// well-formedness is kept, the tokens and the open markers are as they were,
/// the position only advances, and the log and the diagnostics only grow.
pub open spec fn extends(pre: Parser, post: Parser) -> bool {
    &&& post.wf()
    &&& post.tokens@ == pre.tokens@
    &&& post.open_markers@ == pre.open_markers@
    &&& pre.pos <= post.pos
    &&& pre.events@.len() <= post.events@.len()
    &&& forall|i: int| 0 <= i < pre.events@.len() ==> (#[trigger] post.events@[i]) == pre.events@[i]
    &&& pre.errors@.len() <= post.errors@.len()
    &&& forall|i: int| 0 <= i < pre.errors@.len() ==> (#[trigger] post.errors@[i]) == pre.errors@[i]
}

} // verus!
