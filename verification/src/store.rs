//! Append-only transcript store.
//!
//! Rows are kept in insertion order with a server-assigned insertion time
//! that never decreases, so the transcript of any subject — the rows with
//! that subject's identifier, in stored order — is always ordered by time.
//! Deletion happens only in bulk: an explicit clear of one subject, or a
//! retention sweep that drops every subject whose newest turn is older
//! than a cutoff.

use vstd::prelude::*;

use crate::message::{msg_views, msg_wf, ChatMessage, MsgView};

verus! {

broadcast use vstd::seq_lib::group_filter_ensures;

/// The mathematical value of one stored row: the message and its
/// server-assigned insertion time.
#[verifier::ext_equal]
pub ghost struct Turn {
    pub msg: MsgView,
    pub time: int,
}

struct StoredTurn {
    msg: ChatMessage,
    time: u64,
}

impl View for StoredTurn {
    type V = Turn;

    closed spec fn view(&self) -> Turn {
        Turn { msg: self.msg@, time: self.time as int }
    }
}

/// Insertion times never decrease along the stored order.
pub open spec fn times_ordered(rows: Seq<Turn>) -> bool {
    forall|i: int, j: int| 0 <= i <= j < rows.len() ==> rows[i].time <= rows[j].time
}

/// Every stored row carries one of the two known role strings.
pub open spec fn roles_wf(rows: Seq<Turn>) -> bool {
    forall|i: int| 0 <= i < rows.len() ==> msg_wf(rows[i].msg)
}

/// Keeps the rows of the given subject.
pub open spec fn same_subject(uuid: Seq<char>) -> spec_fn(Turn) -> bool {
    |t: Turn| t.msg.uuid == uuid
}

/// Keeps the rows of every other subject.
pub open spec fn other_subject(uuid: Seq<char>) -> spec_fn(Turn) -> bool {
    |t: Turn| t.msg.uuid != uuid
}

/// The transcript of a subject: its rows, in stored order.
pub open spec fn transcript_of(rows: Seq<Turn>, uuid: Seq<char>) -> Seq<Turn> {
    rows.filter(same_subject(uuid))
}

/// The messages of a sequence of rows, without their times.
pub open spec fn msgs_of(ts: Seq<Turn>) -> Seq<MsgView> {
    ts.map_values(|t: Turn| t.msg)
}

/// The insertion time an append performed at clock reading `now` assigns:
/// the clock reading, clamped so that it never falls behind the newest row.
pub open spec fn append_time(rows: Seq<Turn>, now: int) -> int {
    if rows.len() > 0 && rows.last().time > now {
        rows.last().time
    } else {
        now
    }
}

/// The rows after appending one message at clock reading `now`.
pub open spec fn appended(rows: Seq<Turn>, m: MsgView, now: int) -> Seq<Turn> {
    rows.push(Turn { msg: m, time: append_time(rows, now) })
}

/// The rows after clearing one subject.
pub open spec fn cleared(rows: Seq<Turn>, uuid: Seq<char>) -> Seq<Turn> {
    rows.filter(other_subject(uuid))
}

/// A subject is live at a cutoff when it has a row at or after the cutoff,
/// that is, its newest turn is not older than the cutoff.
pub open spec fn subject_live(rows: Seq<Turn>, uuid: Seq<char>, cutoff: int) -> bool {
    exists|i: int| 0 <= i < rows.len() && rows[i].msg.uuid == uuid && rows[i].time >= cutoff
}

/// Keeps the rows whose subject is live in `rows` at the cutoff.
pub open spec fn live_subject(rows: Seq<Turn>, cutoff: int) -> spec_fn(Turn) -> bool {
    |t: Turn| subject_live(rows, t.msg.uuid, cutoff)
}

/// The rows a sweep keeps: those of subjects whose newest turn is at or
/// after the cutoff. The liveness of a row's subject is judged against the
/// whole row set in one step, not row by row.
pub open spec fn sweep_result(rows: Seq<Turn>, cutoff: int) -> Seq<Turn> {
    rows.filter(live_subject(rows, cutoff))
}

/// The cutoff a sweep at clock reading `now` with maximum age `max_age`
/// uses: `now - max_age`, never below zero.
pub open spec fn sweep_cutoff(now: int, max_age: int) -> int {
    if now - max_age > 0 {
        now - max_age
    } else {
        0
    }
}

/// Durable log of chat turns, keyed by subject, ordered by insertion time.
pub struct TranscriptStore {
    rows: Vec<StoredTurn>,
}

impl View for TranscriptStore {
    type V = Seq<Turn>;

    closed spec fn view(&self) -> Seq<Turn> {
        self.rows@.map_values(|r: StoredTurn| r@)
    }
}

impl TranscriptStore {
    /// The store's invariant: times never decrease and only the two known
    /// role strings are stored.
    pub open spec fn wf(&self) -> bool {
        times_ordered(self@) && roles_wf(self@)
    }

    /// An empty store; setting one up anew holds no rows.
    pub fn new() -> (r: Self)
        ensures
            r@ == Seq::<Turn>::empty(),
            r.wf(),
    {
        let r = TranscriptStore { rows: Vec::new() };
        proof {
            assert(r@ =~= Seq::<Turn>::empty());
        }
        r
    }

    /// Appends one immutable row for the message at clock reading `now`
    /// (seconds); the assigned insertion time never falls behind the
    /// newest row, so the order invariant is kept unconditionally.
    pub fn append(&mut self, msg: ChatMessage, now: u64)
        requires
            old(self).wf(),
            msg_wf(msg@),
        ensures
            final(self)@ == appended(old(self)@, msg@, now as int),
            final(self).wf(),
    {
        let ghost mv = msg@;
        let n = self.rows.len();
        let time: u64 = if n > 0 {
            let last_time = self.rows[n - 1].time;
            proof {
                assert(self@[n as int - 1] == self.rows@[n as int - 1]@);
                assert(self@.last().time == last_time as int);
            }
            if last_time > now {
                last_time
            } else {
                now
            }
        } else {
            now
        };
        proof {
            assert(time as int == append_time(self@, now as int));
        }
        let row = StoredTurn { msg, time };
        self.rows.push(row);
        proof {
            assert(self@ =~= appended(old(self)@, mv, now as int));
            assert forall|i: int, j: int| 0 <= i <= j < self@.len() implies self@[i].time
                <= self@[j].time by {
                if j < self@.len() - 1 {
                    assert(old(self)@[i].time <= old(self)@[j].time);
                } else if i < self@.len() - 1 && old(self)@.len() > 0 {
                    assert(old(self)@[i].time <= old(self)@[old(self)@.len() - 1].time);
                }
            }
            assert forall|i: int| 0 <= i < self@.len() implies msg_wf(self@[i].msg) by {
                if i < self@.len() - 1 {
                    assert(msg_wf(old(self)@[i].msg));
                }
            }
        }
    }

    /// Returns the transcript of a subject: all its turns, in stored
    /// order, which the invariant keeps ascending by insertion time.
    pub fn load(&self, uuid: &str) -> (r: Vec<ChatMessage>)
        ensures
            msg_views(r@) == msgs_of(transcript_of(self@, uuid@)),
            roles_wf(self@) ==> forall|i: int| 0 <= i < r@.len() ==> msg_wf(#[trigger] r@[i]@),
    {
        let target = uuid.to_owned();
        let mut out: Vec<ChatMessage> = Vec::new();
        let n = self.rows.len();
        let mut i: usize = 0;
        proof {
            assert(self@.subrange(0, 0) =~= Seq::<Turn>::empty());
        }
        while i < n
            invariant
                n == self.rows.len(),
                i <= n,
                target@ == uuid@,
                out@.len() == transcript_of(self@.subrange(0, i as int), uuid@).len(),
                forall|k: int|
                    0 <= k < out@.len() ==> (#[trigger] out@[k])@ == transcript_of(
                        self@.subrange(0, i as int),
                        uuid@,
                    )[k].msg,
                roles_wf(self@) ==> forall|k: int| 0 <= k < out@.len() ==> msg_wf(
                    #[trigger] out@[k]@,
                ),
            decreases n - i,
        {
            let ghost prefix = self@.subrange(0, i as int);
            let ghost row_view = self@[i as int];
            proof {
                assert(row_view == self.rows@[i as int]@);
                lemma_filter_push(prefix, same_subject(uuid@), row_view);
                assert(self@.subrange(0, i as int + 1) =~= prefix.push(row_view));
            }
            let row = &self.rows[i];
            if row.msg.uuid.eq(&target) {
                out.push(row.msg.clone());
                proof {
                    assert(same_subject(uuid@)(row_view));
                    assert(transcript_of(self@.subrange(0, i as int + 1), uuid@) == transcript_of(
                        prefix,
                        uuid@,
                    ).push(row_view));
                    if roles_wf(self@) {
                        assert(msg_wf(self@[i as int].msg));
                    }
                }
            } else {
                proof {
                    assert(!same_subject(uuid@)(row_view));
                }
            }
            i += 1;
        }
        proof {
            assert(self@.subrange(0, n as int) =~= self@);
            assert(msg_views(out@) =~= msgs_of(transcript_of(self@, uuid@)));
        }
        out
    }

    /// Deletes every turn of one subject and no other row.
    pub fn clear(&mut self, uuid: &str)
        requires
            old(self).wf(),
        ensures
            final(self)@ == cleared(old(self)@, uuid@),
            final(self).wf(),
    {
        let target = uuid.to_owned();
        let mut kept: Vec<StoredTurn> = Vec::new();
        let n = self.rows.len();
        let mut i: usize = 0;
        proof {
            assert(old(self)@.subrange(0, 0) =~= Seq::<Turn>::empty());
            assert(kept@.map_values(|r: StoredTurn| r@) =~= cleared(
                old(self)@.subrange(0, 0),
                uuid@,
            ));
        }
        while i < n
            invariant
                self == old(self),
                n == self.rows.len(),
                i <= n,
                target@ == uuid@,
                kept@.map_values(|r: StoredTurn| r@) == cleared(
                    old(self)@.subrange(0, i as int),
                    uuid@,
                ),
            decreases n - i,
        {
            let ghost prefix = old(self)@.subrange(0, i as int);
            let ghost row_view = old(self)@[i as int];
            proof {
                assert(row_view == self.rows@[i as int]@);
                lemma_filter_push(prefix, other_subject(uuid@), row_view);
                assert(old(self)@.subrange(0, i as int + 1) =~= prefix.push(row_view));
            }
            let row = &self.rows[i];
            if !row.msg.uuid.eq(&target) {
                let copy = StoredTurn { msg: row.msg.clone(), time: row.time };
                proof {
                    assert(copy@ == row_view);
                }
                kept.push(copy);
            }
            proof {
                assert(kept@.map_values(|r: StoredTurn| r@) =~= cleared(
                    old(self)@.subrange(0, i as int + 1),
                    uuid@,
                ));
            }
            i += 1;
        }
        proof {
            assert(old(self)@.subrange(0, n as int) =~= old(self)@);
        }
        self.rows = kept;
        proof {
            lemma_filter_ordered(old(self)@, other_subject(uuid@));
            lemma_filter_roles_wf(old(self)@, other_subject(uuid@));
        }
    }

    /// The full row set, each turn with its insertion time, for a caller
    /// that keeps the log durable elsewhere: replaying the pairs through
    /// `append` in order rebuilds an equal store.
    pub fn snapshot(&self) -> (r: Vec<(ChatMessage, u64)>)
        ensures
            r@.len() == self@.len(),
            forall|i: int|
                0 <= i < r@.len() ==> (#[trigger] r@[i]).0@ == self@[i].msg && r@[i].1 as int
                    == self@[i].time,
    {
        let mut out: Vec<(ChatMessage, u64)> = Vec::new();
        let n = self.rows.len();
        let mut i: usize = 0;
        while i < n
            invariant
                n == self.rows.len(),
                i <= n,
                out@.len() == i,
                forall|k: int|
                    0 <= k < i ==> (#[trigger] out@[k]).0@ == self@[k].msg && out@[k].1 as int
                        == self@[k].time,
            decreases n - i,
        {
            let row = &self.rows[i];
            proof {
                assert(self@[i as int] == self.rows@[i as int]@);
            }
            out.push((row.msg.clone(), row.time));
            i += 1;
        }
        out
    }

    /// Whether the subject's newest turn is at or after the cutoff.
    fn subject_has_recent(&self, uuid: &String, cutoff: u64) -> (r: bool)
        ensures
            r == subject_live(self@, uuid@, cutoff as int),
    {
        let n = self.rows.len();
        let mut i: usize = 0;
        while i < n
            invariant
                n == self.rows.len(),
                i <= n,
                forall|k: int|
                    0 <= k < i ==> !((#[trigger] self@[k]).msg.uuid == uuid@ && self@[k].time
                        >= cutoff as int),
            decreases n - i,
        {
            let row = &self.rows[i];
            proof {
                assert(self@[i as int] == self.rows@[i as int]@);
            }
            if row.time >= cutoff && row.msg.uuid.eq(uuid) {
                proof {
                    assert(self@[i as int].msg.uuid == uuid@ && self@[i as int].time
                        >= cutoff as int);
                }
                return true;
            }
            i += 1;
        }
        proof {
            assert(!subject_live(self@, uuid@, cutoff as int));
        }
        false
    }

    /// Deletes, in one operation over the current rows, every subject
    /// whose newest turn is older than `max_age` seconds before `now`,
    /// and returns the number of deleted rows.
    pub fn sweep(&mut self, max_age: u64, now: u64) -> (count: u64)
        requires
            old(self).wf(),
        ensures
            final(self)@ == sweep_result(old(self)@, sweep_cutoff(now as int, max_age as int)),
            count == old(self)@.len() - final(self)@.len(),
            final(self).wf(),
    {
        let cutoff: u64 = if max_age > now {
            0
        } else {
            now - max_age
        };
        proof {
            assert(cutoff as int == sweep_cutoff(now as int, max_age as int));
        }
        let ghost pred = live_subject(old(self)@, cutoff as int);
        let mut kept: Vec<StoredTurn> = Vec::new();
        let n = self.rows.len();
        let mut i: usize = 0;
        proof {
            assert(old(self)@.subrange(0, 0) =~= Seq::<Turn>::empty());
            assert(kept@.map_values(|r: StoredTurn| r@) =~= old(self)@.subrange(0, 0).filter(
                pred,
            ));
        }
        while i < n
            invariant
                self == old(self),
                n == self.rows.len(),
                i <= n,
                cutoff as int == sweep_cutoff(now as int, max_age as int),
                pred == live_subject(old(self)@, cutoff as int),
                kept@.map_values(|r: StoredTurn| r@) == old(self)@.subrange(0, i as int).filter(
                    pred,
                ),
                kept@.len() <= i,
            decreases n - i,
        {
            let ghost prefix = old(self)@.subrange(0, i as int);
            let ghost row_view = old(self)@[i as int];
            proof {
                assert(row_view == self.rows@[i as int]@);
                lemma_filter_push(prefix, pred, row_view);
                assert(old(self)@.subrange(0, i as int + 1) =~= prefix.push(row_view));
            }
            let row = &self.rows[i];
            if self.subject_has_recent(&row.msg.uuid, cutoff) {
                let copy = StoredTurn { msg: row.msg.clone(), time: row.time };
                proof {
                    assert(copy@ == row_view);
                    assert(pred(row_view));
                }
                kept.push(copy);
            } else {
                proof {
                    assert(!pred(row_view));
                }
            }
            proof {
                assert(kept@.map_values(|r: StoredTurn| r@) =~= old(self)@.subrange(
                    0,
                    i + 1,
                ).filter(pred));
            }
            i += 1;
        }
        proof {
            assert(old(self)@.subrange(0, n as int) =~= old(self)@);
        }
        let removed = n - kept.len();
        self.rows = kept;
        proof {
            lemma_filter_ordered(old(self)@, pred);
            lemma_filter_roles_wf(old(self)@, pred);
        }
        removed as u64
    }
}

/// The retention age in seconds of a maximum transcript age given in
/// days, saturating at the largest representable value.
pub open spec fn age_secs_of_days(days: int) -> int {
    if days * 86400 <= u64::MAX as int {
        days * 86400
    } else {
        u64::MAX as int
    }
}

impl ChatMessage {
    /// Stores this message as one immutable row at clock reading `now`.
    pub fn persist(&self, store: &mut TranscriptStore, now: u64)
        requires
            old(store).wf(),
            msg_wf(self@),
        ensures
            final(store)@ == appended(old(store)@, self@, now as int),
            final(store).wf(),
    {
        store.append(self.clone(), now);
    }

    /// Returns all turns of a subject, ascending by insertion time.
    pub fn load_all(store: &TranscriptStore, uuid: &str) -> (r: Vec<ChatMessage>)
        ensures
            msg_views(r@) == msgs_of(transcript_of(store@, uuid@)),
            roles_wf(store@) ==> forall|i: int| 0 <= i < r@.len() ==> msg_wf(#[trigger] r@[i]@),
    {
        store.load(uuid)
    }
}

/// Deletes every turn of one subject.
pub fn clear_history_by_uuid(store: &mut TranscriptStore, uuid: &str)
    requires
        old(store).wf(),
    ensures
        final(store)@ == cleared(old(store)@, uuid@),
        final(store).wf(),
{
    store.clear(uuid);
}

/// Deletes every subject whose newest turn is more than
/// `chat_expire_days` days old at clock reading `now`, and returns the
/// number of deleted rows.
pub fn clear_old_history(store: &mut TranscriptStore, chat_expire_days: u64, now: u64) -> (count:
    u64)
    requires
        old(store).wf(),
    ensures
        final(store)@ == sweep_result(
            old(store)@,
            sweep_cutoff(now as int, age_secs_of_days(chat_expire_days as int)),
        ),
        count == old(store)@.len() - final(store)@.len(),
        final(store).wf(),
{
    let max_age: u64 = match chat_expire_days.checked_mul(86400) {
        Some(secs) => secs,
        None => u64::MAX,
    };
    proof {
        assert(max_age as int == age_secs_of_days(chat_expire_days as int));
    }
    store.sweep(max_age, now)
}

/// Filtering one more row either appends it to the filtered rows or
/// leaves them unchanged, by the row alone.
proof fn lemma_filter_push<A>(s: Seq<A>, pred: spec_fn(A) -> bool, x: A)
    ensures
        s.push(x).filter(pred) == if pred(x) {
            s.filter(pred).push(x)
        } else {
            s.filter(pred)
        },
{
    reveal(Seq::filter);
    assert(s.push(x).drop_last() =~= s);
    assert(s.push(x).last() == x);
}

/// A filter that keeps every row returns the rows unchanged.
proof fn lemma_filter_all<A>(s: Seq<A>, pred: spec_fn(A) -> bool)
    requires
        forall|i: int| 0 <= i < s.len() ==> pred(#[trigger] s[i]),
    ensures
        s.filter(pred) == s,
    decreases s.len(),
{
    reveal(Seq::filter);
    if s.len() == 0 {
        assert(s.filter(pred) =~= s);
    } else {
        lemma_filter_all(s.drop_last(), pred);
        assert(pred(s.last()));
        assert(s.drop_last().push(s.last()) =~= s);
    }
}

/// A filter that keeps no row returns no rows.
proof fn lemma_filter_none<A>(s: Seq<A>, pred: spec_fn(A) -> bool)
    requires
        forall|i: int| 0 <= i < s.len() ==> !pred(#[trigger] s[i]),
    ensures
        s.filter(pred) == Seq::<A>::empty(),
    decreases s.len(),
{
    reveal(Seq::filter);
    if s.len() == 0 {
        assert(s.filter(pred) =~= Seq::<A>::empty());
    } else {
        lemma_filter_none(s.drop_last(), pred);
        assert(!pred(s.last()));
    }
}

/// Every time in a filtered row set stays under a bound that holds of
/// every unfiltered row.
proof fn lemma_filter_time_bound(rows: Seq<Turn>, pred: spec_fn(Turn) -> bool, bound: int)
    requires
        forall|i: int| 0 <= i < rows.len() ==> (#[trigger] rows[i]).time <= bound,
    ensures
        forall|k: int|
            0 <= k < rows.filter(pred).len() ==> (#[trigger] rows.filter(pred)[k]).time <= bound,
    decreases rows.len(),
{
    reveal(Seq::filter);
    if rows.len() > 0 {
        let sub = rows.drop_last();
        let fl = rows.filter(pred);
        assert forall|i: int| 0 <= i < sub.len() implies (#[trigger] sub[i]).time <= bound by {
            assert(sub[i] == rows[i]);
        }
        lemma_filter_time_bound(sub, pred, bound);
        assert(rows.last() == rows[rows.len() - 1]);
        assert forall|k: int| 0 <= k < fl.len() implies (#[trigger] fl[k]).time <= bound by {
            if pred(rows.last()) {
                assert(fl == sub.filter(pred).push(rows.last()));
                if k < fl.len() - 1 {
                    assert(sub.filter(pred)[k].time <= bound);
                }
            } else {
                assert(fl == sub.filter(pred));
                assert(sub.filter(pred)[k].time <= bound);
            }
        }
    }
}

/// Filtering keeps the stored order, so it keeps ordered times ordered.
proof fn lemma_filter_ordered(rows: Seq<Turn>, pred: spec_fn(Turn) -> bool)
    requires
        times_ordered(rows),
    ensures
        times_ordered(rows.filter(pred)),
    decreases rows.len(),
{
    reveal(Seq::filter);
    if rows.len() > 0 {
        let sub = rows.drop_last();
        assert(times_ordered(sub));
        lemma_filter_ordered(sub, pred);
        if pred(rows.last()) {
            assert(forall|i: int|
                0 <= i < sub.len() ==> (#[trigger] sub[i]).time <= rows.last().time);
            lemma_filter_time_bound(sub, pred, rows.last().time);
        }
    }
}

/// Filtering keeps each row unchanged, so it keeps well-formed roles.
proof fn lemma_filter_roles_wf(rows: Seq<Turn>, pred: spec_fn(Turn) -> bool)
    requires
        roles_wf(rows),
    ensures
        roles_wf(rows.filter(pred)),
    decreases rows.len(),
{
    reveal(Seq::filter);
    if rows.len() > 0 {
        assert(roles_wf(rows.drop_last()));
        lemma_filter_roles_wf(rows.drop_last(), pred);
    }
}

/// A subject's transcript is ordered by insertion time: filtering by
/// subject keeps the stored order, and stored times never decrease.
pub proof fn lemma_transcript_ordered(rows: Seq<Turn>, uuid: Seq<char>)
    requires
        times_ordered(rows),
    ensures
        times_ordered(transcript_of(rows, uuid)),
{
    lemma_filter_ordered(rows, same_subject(uuid));
}

/// Appending a turn of one subject leaves every other subject's
/// transcript exactly as it was: transcripts never interleave.
pub proof fn lemma_append_preserves_others(
    rows: Seq<Turn>,
    m: MsgView,
    now: int,
    other: Seq<char>,
)
    requires
        m.uuid != other,
    ensures
        transcript_of(appended(rows, m, now), other) == transcript_of(rows, other),
{
    let t = Turn { msg: m, time: append_time(rows, now) };
    lemma_filter_push(rows, same_subject(other), t);
}

/// Appending a turn of a subject appends exactly that turn to the
/// subject's own transcript.
pub proof fn lemma_append_extends_own(rows: Seq<Turn>, m: MsgView, now: int)
    ensures
        transcript_of(appended(rows, m, now), m.uuid) == transcript_of(rows, m.uuid).push(
            Turn { msg: m, time: append_time(rows, now) },
        ),
{
    let t = Turn { msg: m, time: append_time(rows, now) };
    lemma_filter_push(rows, same_subject(m.uuid), t);
}

/// One completed exchange — a user turn appended, then the assistant's
/// reply appended — adds exactly those two messages, in that order and
/// adjacent, to the end of the subject's transcript, and leaves every
/// other subject's transcript unchanged.
pub proof fn lemma_exchange_appends_pair(
    rows: Seq<Turn>,
    user_m: MsgView,
    reply_m: MsgView,
    now1: int,
    now2: int,
)
    requires
        reply_m.uuid == user_m.uuid,
    ensures
        msgs_of(transcript_of(appended(appended(rows, user_m, now1), reply_m, now2), user_m.uuid))
            == msgs_of(transcript_of(rows, user_m.uuid)).push(user_m).push(reply_m),
        forall|other: Seq<char>|
            other != user_m.uuid ==> #[trigger] transcript_of(
                appended(appended(rows, user_m, now1), reply_m, now2),
                other,
            ) == transcript_of(rows, other),
{
    let mid = appended(rows, user_m, now1);
    lemma_append_extends_own(rows, user_m, now1);
    lemma_append_extends_own(mid, reply_m, now2);
    assert(msgs_of(transcript_of(appended(mid, reply_m, now2), user_m.uuid)) =~= msgs_of(
        transcript_of(rows, user_m.uuid),
    ).push(user_m).push(reply_m));
    assert forall|other: Seq<char>| other != user_m.uuid implies #[trigger] transcript_of(
        appended(mid, reply_m, now2),
        other,
    ) == transcript_of(rows, other) by {
        lemma_append_preserves_others(rows, user_m, now1, other);
        lemma_append_preserves_others(mid, reply_m, now2, other);
    }
}

/// After a subject is cleared, its transcript is empty.
pub proof fn lemma_clear_empties_subject(rows: Seq<Turn>, uuid: Seq<char>)
    ensures
        transcript_of(cleared(rows, uuid), uuid) == Seq::<Turn>::empty(),
{
    let kept = cleared(rows, uuid);
    assert forall|i: int| 0 <= i < kept.len() implies !same_subject(uuid)(#[trigger] kept[i]) by {
        assert(other_subject(uuid)(kept[i]));
    }
    lemma_filter_none(kept, same_subject(uuid));
}

/// Clearing one subject leaves every other subject's transcript as it was.
pub proof fn lemma_clear_preserves_others(rows: Seq<Turn>, uuid: Seq<char>, other: Seq<char>)
    requires
        other != uuid,
    ensures
        transcript_of(cleared(rows, uuid), other) == transcript_of(rows, other),
    decreases rows.len(),
{
    reveal(Seq::filter);
    if rows.len() > 0 {
        lemma_clear_preserves_others(rows.drop_last(), uuid, other);
        lemma_filter_push(rows.drop_last(), other_subject(uuid), rows.last());
        if rows.last().msg.uuid != uuid {
            lemma_filter_push(cleared(rows.drop_last(), uuid), same_subject(other), rows.last());
        }
        lemma_filter_push(rows.drop_last(), same_subject(other), rows.last());
        assert(rows.drop_last().push(rows.last()) =~= rows);
    } else {
        assert(cleared(rows, uuid) =~= rows);
    }
}

/// Filtering by a wider predicate first changes nothing: rows kept by the
/// narrow predicate are all kept by the wide one.
proof fn lemma_filter_mono<A>(s: Seq<A>, wide: spec_fn(A) -> bool, narrow: spec_fn(A) -> bool)
    requires
        forall|i: int| 0 <= i < s.len() ==> (narrow(#[trigger] s[i]) ==> wide(s[i])),
    ensures
        s.filter(wide).filter(narrow) == s.filter(narrow),
    decreases s.len(),
{
    reveal(Seq::filter);
    if s.len() > 0 {
        let sub = s.drop_last();
        assert forall|i: int| 0 <= i < sub.len() implies (narrow(#[trigger] sub[i]) ==> wide(
            sub[i],
        )) by {
            assert(sub[i] == s[i]);
        }
        lemma_filter_mono(sub, wide, narrow);
        let last = s.last();
        assert(last == s[s.len() - 1]);
        if wide(last) {
            lemma_filter_push(sub.filter(wide), narrow, last);
        } else {
            assert(!narrow(last));
        }
    }
}

/// A sweep deletes whole subjects, never single turns: a subject whose
/// newest turn is at or after the cutoff keeps its entire transcript,
/// and one whose newest turn is older loses it entirely.
pub proof fn lemma_sweep_keeps_whole_transcripts(rows: Seq<Turn>, uuid: Seq<char>, cutoff: int)
    ensures
        subject_live(rows, uuid, cutoff) ==> transcript_of(sweep_result(rows, cutoff), uuid)
            == transcript_of(rows, uuid),
        !subject_live(rows, uuid, cutoff) ==> transcript_of(sweep_result(rows, cutoff), uuid)
            == Seq::<Turn>::empty(),
{
    let keep = same_subject(uuid);
    let live = live_subject(rows, cutoff);
    if subject_live(rows, uuid, cutoff) {
        assert forall|i: int| 0 <= i < rows.len() implies (keep(#[trigger] rows[i]) ==> live(
            rows[i],
        )) by {
            if rows[i].msg.uuid == uuid {
                assert(subject_live(rows, rows[i].msg.uuid, cutoff));
            }
        }
        lemma_filter_mono(rows, live, keep);
    } else {
        let kept = sweep_result(rows, cutoff);
        assert forall|k: int| 0 <= k < kept.len() implies !keep(#[trigger] kept[k]) by {
            rows.lemma_filter_pred(live, k);
            if kept[k].msg.uuid == uuid {
                assert(subject_live(rows, uuid, cutoff));
            }
        }
        lemma_filter_none(kept, keep);
    }
}

/// A sweep run when no subject's newest turn is older than the cutoff
/// deletes nothing.
pub proof fn lemma_sweep_fresh_deletes_nothing(rows: Seq<Turn>, cutoff: int)
    requires
        forall|i: int| 0 <= i < rows.len() ==> subject_live(rows, (#[trigger] rows[i]).msg.uuid, cutoff),
    ensures
        sweep_result(rows, cutoff) == rows,
{
    assert forall|i: int| 0 <= i < rows.len() implies live_subject(rows, cutoff)(
        #[trigger] rows[i],
    ) by {
        assert(subject_live(rows, rows[i].msg.uuid, cutoff));
    }
    lemma_filter_all(rows, live_subject(rows, cutoff));
}

} // verus!
