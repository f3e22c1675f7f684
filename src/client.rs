//! The client side: keys checked before any network call, the set of orbs
//! seen during discovery, and the collector of query replies.

use vstd::prelude::*;
use crate::orb_actions::{str_eq, Command, Query, UnknownToken};

verus! {

/// How long discovery listens in all, in milliseconds.
pub const DISCOVERY_WINDOW_MS: u64 = 3000;

/// How long one receive waits, in milliseconds, during discovery and for each
/// query reply.
pub const RECEIVE_TIMEOUT_MS: u64 = 1000;

/// The key for the query named `query_type` on the orb `orb_id`; an unknown
/// query name is refused.
pub fn query_key(query_type: &str, orb_id: &str) -> (r: Result<String, UnknownToken>)
    ensures
        match Query::spec_parse(query_type@) {
            Ok(q) => r is Ok && r->Ok_0@ == q.key(orb_id@),
            Err(_) => r is Err,
        },
{
    match Query::parse(query_type) {
        Ok(q) => Ok(q.to_key(orb_id)),
        Err(e) => Err(e),
    }
}

/// The key for the command named `command_type` on the orb `orb_id`; an
/// unknown command name is refused.
pub fn command_key(command_type: &str, orb_id: &str) -> (r: Result<String, UnknownToken>)
    ensures
        match Command::spec_parse(command_type@) {
            Ok(c) => r is Ok && r->Ok_0@ == c.key(orb_id@),
            Err(_) => r is Err,
        },
{
    match Command::parse(command_type) {
        Ok(c) => Ok(c.to_key(orb_id)),
        Err(e) => Err(e),
    }
}

/// Whether discovery keeps listening after `elapsed_ms` milliseconds.
pub fn discovery_continues(elapsed_ms: u64) -> (r: bool)
    ensures
        r == (elapsed_ms < DISCOVERY_WINDOW_MS),
{
    elapsed_ms < DISCOVERY_WINDOW_MS
}

/// `seen` with `id` added at the end, unless it is already there.
pub open spec fn add_new(seen: Seq<Seq<char>>, id: Seq<char>) -> Seq<Seq<char>> {
    if seen.contains(id) {
        seen
    } else {
        seen.push(id)
    }
}

/// The distinct identifiers of `stream`, in the order first seen.
pub open spec fn first_seen(stream: Seq<Seq<char>>) -> Seq<Seq<char>>
    decreases stream.len(),
{
    if stream.len() == 0 {
        Seq::empty()
    } else {
        add_new(first_seen(stream.drop_last()), stream.last())
    }
}

/// The identifiers observed during one discovery window, without repeats.
pub struct DiscoverySet {
    ids: Vec<String>,
}

impl View for DiscoverySet {
    type V = Seq<Seq<char>>;

    closed spec fn view(&self) -> Seq<Seq<char>> {
        self.ids@.map_values(|s: String| s@)
    }
}

impl DiscoverySet {
    /// No identifier is held twice.
    pub open spec fn wf(&self) -> bool {
        self@.no_duplicates()
    }

    /// An empty set.
    pub fn new() -> (r: DiscoverySet)
        ensures
            r@ == Seq::<Seq<char>>::empty(),
            r.wf(),
    {
        let r = DiscoverySet { ids: Vec::new() };
        assert(r@ =~= Seq::<Seq<char>>::empty());
        r
    }

    /// Records `id`; says whether it is new.
    pub fn observe(&mut self, id: &str) -> (r: bool)
        requires
            old(self).wf(),
        ensures
            r == !old(self)@.contains(id@),
            final(self)@ == add_new(old(self)@, id@),
            final(self).wf(),
    {
        let n = self.ids.len();
        let mut i: usize = 0;
        while i < n
            invariant
                n == self.ids@.len(),
                i <= n,
                forall|j: int| 0 <= j < i ==> self@[j] != id@,
                self@.len() == n,
                self@ == old(self)@,
                self.wf(),
            decreases n - i,
        {
            if str_eq(self.ids[i].as_str(), id) {
                assert(self@[i as int] == id@);
                return false;
            }
            i = i + 1;
        }
        let ghost before = self@;
        self.ids.push(String::from_str(id));
        assert(self@ =~= before.push(id@));
        assert forall|a: int, b: int|
            0 <= a < b < self@.len() implies #[trigger] self@[a] != #[trigger] self@[b] by {
            if b == n {
                assert(before[a] != id@);
            }
        }
        true
    }

    /// How many identifiers were seen.
    pub fn len(&self) -> (r: usize)
        ensures
            r == self@.len(),
    {
        self.ids.len()
    }

    /// Whether none was seen.
    pub fn is_empty(&self) -> (r: bool)
        ensures
            r == (self@.len() == 0),
    {
        self.ids.len() == 0
    }

    /// The identifier seen `i`-th.
    pub fn get(&self, i: usize) -> (r: &str)
        requires
            i < self@.len(),
        ensures
            r@ == self@[i as int],
    {
        self.ids[i].as_str()
    }
}

/// The identifiers that discovery reports hold each identifier of the stream
/// exactly once, and nothing else.
pub proof fn lemma_first_seen(stream: Seq<Seq<char>>)
    ensures
        first_seen(stream).no_duplicates(),
        forall|x: Seq<char>| #[trigger] first_seen(stream).contains(x) <==> stream.contains(x),
    decreases stream.len(),
{
    if stream.len() > 0 {
        let init = stream.drop_last();
        lemma_first_seen(init);
        let f = first_seen(init);
        let x = stream.last();
        assert forall|y: Seq<char>| #[trigger] first_seen(stream).contains(y) <==> stream.contains(
            y,
        ) by {
            if stream.contains(y) && y != x {
                let k = choose|k: int| 0 <= k < stream.len() && stream[k] == y;
                assert(init[k] == y);
            }
            if init.contains(y) {
                let k = choose|k: int| 0 <= k < init.len() && init[k] == y;
                assert(stream[k] == y);
            }
            if !f.contains(x) {
                if y == x {
                    assert(f.push(x)[f.len() as int] == x);
                }
                if f.push(x).contains(y) && y != x {
                    let k = choose|k: int| 0 <= k < f.len() + 1 && f.push(x)[k] == y;
                    assert(f[k] == y);
                }
                if f.contains(y) {
                    let k = choose|k: int| 0 <= k < f.len() && f[k] == y;
                    assert(f.push(x)[k] == y);
                }
            }
            assert(stream[stream.len() - 1] == x);
        }
        if !f.contains(x) {
            assert forall|i: int, j: int|
                0 <= i < j < f.len() + 1 implies #[trigger] f.push(x)[i] != #[trigger] f.push(
                x,
            )[j] by {
                if j == f.len() {
                    assert(f[i] != x);
                }
            }
        }
    }
}

/// What the query issuer receives while it waits for replies.
#[derive(Debug, PartialEq, Eq)]
pub enum ReplyEvent {
    /// A reply with this payload, which may carry an error text.
    Reply(String),
    /// No reply came within the per-reply timeout.
    TimedOut,
    /// The reply channel was closed.
    Closed,
}

/// A reply event, over views.
pub enum ReplyEventView {
    Reply(Seq<char>),
    TimedOut,
    Closed,
}

impl View for ReplyEvent {
    type V = ReplyEventView;

    open spec fn view(&self) -> ReplyEventView {
        match self {
            ReplyEvent::Reply(p) => ReplyEventView::Reply(p@),
            ReplyEvent::TimedOut => ReplyEventView::TimedOut,
            ReplyEvent::Closed => ReplyEventView::Closed,
        }
    }
}

/// One step of the issuer: whether it has finished afterwards, and the
/// payload it reports, if any.
pub open spec fn issuer_step(finished: bool, ev: ReplyEventView) -> (bool, Option<Seq<char>>) {
    if finished {
        (true, None)
    } else {
        match ev {
            ReplyEventView::Reply(p) => (false, Some(p)),
            _ => (true, None),
        }
    }
}

/// The payloads reported by an issuer that starts in `finished` and sees
/// `evs`.
pub open spec fn issuer_reports(finished: bool, evs: Seq<ReplyEventView>) -> Seq<Seq<char>>
    decreases evs.len(),
{
    if evs.len() == 0 {
        Seq::empty()
    } else {
        let (f, out) = issuer_step(finished, evs[0]);
        match out {
            Some(p) => seq![p] + issuer_reports(f, evs.drop_first()),
            None => issuer_reports(f, evs.drop_first()),
        }
    }
}

/// Whether an issuer that starts in `finished` has finished after `evs`.
pub open spec fn issuer_finished(finished: bool, evs: Seq<ReplyEventView>) -> bool
    decreases evs.len(),
{
    if evs.len() == 0 {
        finished
    } else {
        issuer_finished(issuer_step(finished, evs[0]).0, evs.drop_first())
    }
}

/// The payloads of the replies that come before the first timeout or
/// closure.
pub open spec fn replies_before_end(evs: Seq<ReplyEventView>) -> Seq<Seq<char>>
    decreases evs.len(),
{
    if evs.len() == 0 {
        Seq::empty()
    } else {
        match evs[0] {
            ReplyEventView::Reply(p) => seq![p] + replies_before_end(evs.drop_first()),
            _ => Seq::empty(),
        }
    }
}

/// Whether a timeout or closure occurs in `evs`.
pub open spec fn has_end(evs: Seq<ReplyEventView>) -> bool {
    exists|i: int| 0 <= i < evs.len() && !(evs[i] is Reply)
}

/// The collector of replies to one query: it reports each reply as it comes
/// and finishes at the first wait that ends without one.
pub struct QueryIssuer {
    finished: bool,
}

impl QueryIssuer {
    /// Whether the issuer has finished.
    pub closed spec fn spec_finished(&self) -> bool {
        self.finished
    }

    /// An issuer waiting for its first reply.
    pub fn new() -> (r: QueryIssuer)
        ensures
            !r.spec_finished(),
    {
        QueryIssuer { finished: false }
    }

    /// Whether the issuer has finished.
    pub fn is_finished(&self) -> (r: bool)
        ensures
            r == self.spec_finished(),
    {
        self.finished
    }

    /// Handles one event; returns the payload to report, if any.
    pub fn on_event(&mut self, ev: ReplyEvent) -> (r: Option<String>)
        ensures
            (final(self).spec_finished(), match r {
                Some(p) => Some(p@),
                None => None::<Seq<char>>,
            }) == issuer_step(old(self).spec_finished(), ev@),
    {
        if self.finished {
            None
        } else {
            match ev {
                ReplyEvent::Reply(p) => Some(p),
                _ => {
                    self.finished = true;
                    None
                },
            }
        }
    }
}

/// A waiting issuer reports exactly the replies that come before the first
/// timeout or closure, in order, and has finished exactly when one came; a
/// finished issuer reports nothing more.
pub proof fn lemma_issuer_reports(evs: Seq<ReplyEventView>)
    ensures
        issuer_reports(false, evs) == replies_before_end(evs),
        issuer_finished(false, evs) == has_end(evs),
        issuer_reports(true, evs) == Seq::<Seq<char>>::empty(),
        issuer_finished(true, evs),
    decreases evs.len(),
{
    if evs.len() > 0 {
        let rest = evs.drop_first();
        lemma_issuer_reports(rest);
        if evs[0] is Reply {
            if has_end(rest) {
                let i = choose|i: int| 0 <= i < rest.len() && !(rest[i] is Reply);
                assert(evs[i + 1] == rest[i]);
            }
            if has_end(evs) {
                let i = choose|i: int| 0 <= i < evs.len() && !(evs[i] is Reply);
                assert(rest[i - 1] == evs[i]);
            }
        } else {
            assert(!(evs[0] is Reply));
        }
    }
}

} // verus!
