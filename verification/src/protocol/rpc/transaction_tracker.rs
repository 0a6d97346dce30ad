//! Which requests were answered a moment ago.
//!
//! A client that waits too long for a reply sends its request again,
//! under the same transaction id. The tracker remembers for a while which
//! requests were carried out, so that the server can let a repetition
//! pass without carrying it out twice.
//!
//! The tracker has no clock: whoever uses it says what time it is, in a
//! unit of their choice, the same for the retention and for every call.
//!
//! The marks stand in a list that is searched from the front. Beside it
//! the tracker carries, for the proofs only, the map from requests to
//! times that the list stands for; a key holds the address as text, and
//! of a hash map with such keys nothing could be proved.

use vstd::prelude::*;

verus! {

/// A request that was carried out.
struct Mark {
    xid: u32,
    client_addr: String,
    seen: u64,
}

impl Mark {
    spec fn key(self) -> (u32, Seq<char>) {
        (self.xid, self.client_addr@)
    }
}

/// Whether something that happened at `seen` is, at `now`, younger than
/// `retention`.
pub open spec fn is_recent(seen: u64, now: u64, retention: u64) -> bool {
    (now as int) - (seen as int) < (retention as int)
}

/// Whether `marks` hold a recent mark for a request.
pub open spec fn marked_recently(
    marks: Map<(u32, Seq<char>), u64>,
    retention: u64,
    xid: u32,
    client_addr: Seq<char>,
    now: u64,
) -> bool {
    marks.contains_key((xid, client_addr)) && is_recent(marks[(xid, client_addr)], now, retention)
}

/// The marks after a request was marked at `now`: those that were recent
/// then, and the mark of the request itself.
pub open spec fn marks_after(
    marks: Map<(u32, Seq<char>), u64>,
    retention: u64,
    xid: u32,
    client_addr: Seq<char>,
    now: u64,
) -> Map<(u32, Seq<char>), u64> {
    Map::new(
        |k: (u32, Seq<char>)|
            k == (xid, client_addr) || (marks.contains_key(k) && is_recent(
                marks[k],
                now,
                retention,
            )),
        |k: (u32, Seq<char>)|
            if k == (xid, client_addr) {
                now
            } else {
                marks[k]
            },
    )
}

/// A request that was marked counts as a repetition for as long as the
/// retention lasts, whatever was marked before it.
pub proof fn lemma_marked_is_retransmission(
    marks: Map<(u32, Seq<char>), u64>,
    retention: u64,
    xid: u32,
    client_addr: Seq<char>,
    marked_at: u64,
    asked_at: u64,
)
    requires
        (asked_at as int) - (marked_at as int) < (retention as int),
    ensures
        marked_recently(
            marks_after(marks, retention, xid, client_addr, marked_at),
            retention,
            xid,
            client_addr,
            asked_at,
        ),
{
}

/// Marks of other requests stay as they are while they are recent.
pub proof fn lemma_mark_keeps_recent(
    marks: Map<(u32, Seq<char>), u64>,
    retention: u64,
    xid: u32,
    client_addr: Seq<char>,
    now: u64,
    other_xid: u32,
    other_addr: Seq<char>,
)
    requires
        (other_xid, other_addr) != (xid, client_addr),
    ensures
        marked_recently(
            marks_after(marks, retention, xid, client_addr, now),
            retention,
            other_xid,
            other_addr,
            now,
        ) == marked_recently(marks, retention, other_xid, other_addr, now),
{
}

/// The list holds the marks of the map, and no others.
spec fn agree(recent: Seq<Mark>, marks: Map<(u32, Seq<char>), u64>) -> bool {
    &&& forall|i: int|
        0 <= i < recent.len() ==> marks.contains_key((#[trigger] recent[i]).key())
            && marks[recent[i].key()] == recent[i].seen
    &&& forall|k: (u32, Seq<char>)| #[trigger]
        marks.contains_key(k) ==> exists|i: int|
            0 <= i < recent.len() && (#[trigger] recent[i]).key() == k
}

/// The requests that were carried out of late, by transaction id and
/// address of the client, each with the time at which it was marked.
pub struct TransactionTracker {
    retention: u64,
    recent: Vec<Mark>,
    model: Ghost<Map<(u32, Seq<char>), u64>>,
}

impl TransactionTracker {
    #[verifier::type_invariant]
    spec fn wf(self) -> bool {
        agree(self.recent@, self.model@)
    }

    /// For how long a mark counts.
    pub closed spec fn retention(self) -> u64 {
        self.retention
    }

    /// The marks: for each request, when it was marked last.
    pub closed spec fn marks(self) -> Map<(u32, Seq<char>), u64> {
        self.model@
    }

    /// A tracker without marks.
    pub fn new(retention: u64) -> (t: TransactionTracker)
        ensures
            t.retention() == retention,
            t.marks() == Map::<(u32, Seq<char>), u64>::empty(),
    {
        TransactionTracker { retention, recent: Vec::new(), model: Ghost(Map::empty()) }
    }

    /// Whether the request was marked less than the retention ago.
    pub fn is_retransmission(&self, xid: u32, client_addr: &String, now: u64) -> (b: bool)
        ensures
            b == marked_recently(self.marks(), self.retention(), xid, client_addr@, now),
    {
        proof {
            use_type_invariant(self);
        }
        let n = self.recent.len();
        let mut i: usize = 0;
        while i < n
            invariant
                i <= n,
                n == self.recent@.len(),
                self.wf(),
                forall|k: int|
                    0 <= k < i ==> (#[trigger] self.recent@[k]).key() != (xid, client_addr@),
            decreases n - i,
        {
            let mark = &self.recent[i];
            if mark.xid == xid && mark.client_addr == *client_addr {
                return younger(mark.seen, now, self.retention);
            }
            i += 1;
        }
        false
    }

    /// Marks the request as carried out at `now`, and forgets the marks
    /// that are no longer recent.
    pub fn mark_processed(&mut self, xid: u32, client_addr: &String, now: u64)
        ensures
            final(self).retention() == old(self).retention(),
            final(self).marks() == marks_after(
                old(self).marks(),
                old(self).retention(),
                xid,
                client_addr@,
                now,
            ),
    {
        proof {
            use_type_invariant(&*self);
        }
        let ghost before = self.model@;
        let ghost after = marks_after(before, self.retention, xid, client_addr@, now);
        let retention = self.retention;
        let mut kept: Vec<Mark> = Vec::new();
        // Where each mark that is kept went.
        let ghost mut place: Map<int, int> = Map::empty();
        let n = self.recent.len();
        let mut i: usize = 0;
        while i < n
            invariant
                i <= n,
                n == self.recent@.len(),
                self.wf(),
                before == self.model@,
                retention == self.retention,
                after == marks_after(before, retention, xid, client_addr@, now),
                forall|j: int|
                    0 <= j < kept@.len() ==> after.contains_key((#[trigger] kept@[j]).key())
                        && after[kept@[j].key()] == kept@[j].seen,
                forall|k: int|
                    0 <= k < i && (#[trigger] self.recent@[k]).key() != (xid, client_addr@)
                        && is_recent(self.recent@[k].seen, now, retention) ==> place.contains_key(k)
                        && 0 <= place[k] < kept@.len() && kept@[place[k]].key()
                        == self.recent@[k].key(),
            decreases n - i,
        {
            let mark = &self.recent[i];
            let same = mark.xid == xid && mark.client_addr == *client_addr;
            if !same && younger(mark.seen, now, retention) {
                proof {
                    place = place.insert(i as int, kept@.len() as int);
                }
                kept.push(
                    Mark { xid: mark.xid, client_addr: mark.client_addr.clone(), seen: mark.seen },
                );
            }
            i += 1;
        }
        let ghost len = kept@.len() as int;
        let ghost kept_before = kept@;
        kept.push(Mark { xid, client_addr: client_addr.clone(), seen: now });
        proof {
            assert(kept@[len].key() == (xid, client_addr@));
            assert forall|j: int| 0 <= j < kept@.len() implies after.contains_key(
                (#[trigger] kept@[j]).key(),
            ) && after[kept@[j].key()] == kept@[j].seen by {
                if j < len {
                    assert(kept@[j] == kept_before[j]);
                }
            }
            assert forall|k: (u32, Seq<char>)| #[trigger] after.contains_key(k) implies exists|
                j: int,
            |
                0 <= j < kept@.len() && (#[trigger] kept@[j]).key() == k by {
                if k == (xid, client_addr@) {
                    assert(kept@[len].key() == k);
                } else {
                    let m = choose|m: int|
                        0 <= m < self.recent@.len() && (#[trigger] self.recent@[m]).key() == k;
                    assert(self.recent@[m].key() == k);
                    assert(kept@[place[m]].key() == k);
                }
            }
        }
        assert(agree(kept@, after));
        *self = TransactionTracker { retention, recent: kept, model: Ghost(after) };
    }
}

/// Whether something that happened at `seen` is, at `now`, younger than
/// `retention`.
fn younger(seen: u64, now: u64, retention: u64) -> (b: bool)
    ensures
        b == is_recent(seen, now, retention),
{
    now < seen || now - seen < retention
}

} // verus!
