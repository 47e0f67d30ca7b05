//! Sessions: what each visitor was last shown.
use axum::http::{HeaderMap, HeaderValue};
use vstd::prelude::*;

use crate::catalog::MediaKind;
use crate::files::FileRow;
use crate::headers::opt_str;
use crate::request::{get_session_id, request_session};
use crate::table::{distinct_names, entries_map, lemma_entries_map, lemma_entry_value, Table};

verus! {

/// One hour, in nanoseconds.
pub const HOUR_NANOS: u128 = 3_600_000_000_000;

/// What a visitor was last shown, and when the session was last used. Times are
/// nanoseconds on a clock that does not go back.
#[derive(Clone, Debug)]
pub struct Session {
    pub pixiv: Option<FileRow>,
    pub plus: Option<FileRow>,
    pub last_accessed: u128,
}

impl Session {
    /// A session that begins at `now`.
    pub fn new(now: u128) -> (r: Session)
        ensures
            r == (Session { pixiv: None, plus: None, last_accessed: now }),
    {
        Session { pixiv: None, plus: None, last_accessed: now }
    }
}

/// The row that a session remembers of the kind.
pub open spec fn remembered_row(session: Session, kind: MediaKind) -> Option<FileRow> {
    match kind {
        MediaKind::Pixiv => session.pixiv,
        MediaKind::Plus => session.plus,
    }
}

/// All sessions, by their ids.
pub struct SessionStore {
    sessions: Table<Session>,
    last_cleanup: u128,
}

/// The sessions that were used less than an hour before `now`.
pub open spec fn unexpired(sessions: Map<Seq<char>, Session>, now: u128) -> Map<Seq<char>, Session> {
    sessions.restrict(
        Set::new(
            |id: Seq<char>|
                sessions.contains_key(id) && sessions[id].last_accessed > now - HOUR_NANOS,
        ),
    )
}

/// An hour has gone by between the two times.
pub open spec fn hour_passed(since: u128, now: u128) -> bool {
    now - since >= HOUR_NANOS
}

/// The sessions that are left at `now`, where the last cleanup was at `last_cleanup`.
pub open spec fn cleaned(
    sessions: Map<Seq<char>, Session>,
    last_cleanup: u128,
    now: u128,
) -> Map<Seq<char>, Session> {
    if hour_passed(last_cleanup, now) {
        unexpired(sessions, now)
    } else {
        sessions
    }
}

/// The hexadecimal digit is a digit or a small letter.
pub open spec fn is_small_hex(c: char) -> bool {
    '0' <= c <= '9' || 'a' <= c <= 'f'
}

/// The text of a random UUID: thirty-two hexadecimal digits in small letters and four
/// hyphens, with the marks of its version and its variant.
pub open spec fn is_random_uuid(s: Seq<char>) -> bool {
    &&& s.len() == 36
    &&& s[8] == '-' && s[13] == '-' && s[18] == '-' && s[23] == '-'
    &&& s[14] == '4'
    &&& s[19] == '8' || s[19] == '9' || s[19] == 'a' || s[19] == 'b'
    &&& forall|i: int|
        0 <= i < 36 && i != 8 && i != 13 && i != 18 && i != 23 ==> is_small_hex(#[trigger] s[i])
}

/// `uuid::Uuid::new_v4` and its text: a random UUID of version 4. Which one is left
/// open.
#[verifier::external_body]
fn random_id() -> (r: String)
    ensures
        is_random_uuid(r@),
{
    uuid::Uuid::new_v4().to_string()
}

impl SessionStore {
    /// The sessions by their ids.
    pub closed spec fn sessions(self) -> Map<Seq<char>, Session> {
        self.sessions@
    }

    /// When expired sessions were last taken out.
    pub closed spec fn last_cleanup(self) -> u128 {
        self.last_cleanup
    }

    /// The table of the sessions is in order.
    pub closed spec fn wf(self) -> bool {
        self.sessions.wf()
    }

    /// The store has no sessions, and counts the hour to its first cleanup from `now`.
    pub open spec fn is_fresh(self, now: u128) -> bool {
        &&& self.wf()
        &&& self.sessions() == Map::<Seq<char>, Session>::empty()
        &&& self.last_cleanup() == now
    }

    /// A store without sessions.
    pub fn new(now: u128) -> (r: SessionStore)
        ensures
            r.is_fresh(now),
    {
        SessionStore { sessions: Table::new(), last_cleanup: now }
    }

    /// The store becomes `after` by a cleanup at `now`.
    pub open spec fn cleans_to(self, after: SessionStore, now: u128) -> bool {
        &&& after.wf()
        &&& after.sessions() == cleaned(self.sessions(), self.last_cleanup(), now)
        &&& after.last_cleanup() == (if hour_passed(self.last_cleanup(), now) {
            now
        } else {
            self.last_cleanup()
        })
    }

    /// Takes out the sessions that were not used for an hour, where the last time
    /// this was done is an hour ago.
    pub fn cleanup_if_needed(&mut self, now: u128)
        requires
            old(self).wf(),
        ensures
            old(self).cleans_to(*final(self), now),
    {
        if now < self.last_cleanup || now - self.last_cleanup < HOUR_NANOS {
            return;
        }
        let ghost all = self.sessions@;
        let mut entries: Vec<(String, Session)> = self.sessions.drain();
        assert(self.sessions@ =~= unexpired(Map::empty(), now));
        let ghost mut done: Map<Seq<char>, Session> = Map::empty();
        proof {
            assert(all =~= done.union_prefer_right(entries_map(entries@)));
        }
        while entries.len() > 0
            invariant
                self.sessions.wf(),
                distinct_names(entries@),
                self.sessions@ == unexpired(done, now),
                all == done.union_prefer_right(entries_map(entries@)),
                done.dom().disjoint(entries_map(entries@).dom()),
            decreases entries@.len(),
        {
            let ghost before = entries@;
            let ghost kept = self.sessions@;
            match entries.pop() {
                Some((id, session)) => {
                    let ghost name = id@;
                    let ghost item = session;
                    proof {
                        let last = before.len() - 1;
                        lemma_entry_value(before, last);
                        assert(entries@ =~= before.drop_last());
                        lemma_entries_map(entries@, name);
                        assert(!entries_map(entries@).contains_key(name)) by {
                            if exists|i: int|
                                0 <= i < entries@.len() && (#[trigger] entries@[i]).0@ == name {
                                let i = choose|i: int|
                                    0 <= i < entries@.len() && (#[trigger] entries@[i]).0@ == name;
                                assert(before[i].0@ != before[last].0@);
                            }
                        }
                        assert(distinct_names(entries@)) by {
                            assert forall|i: int, j: int| 0 <= i < j < entries@.len() implies (
                            #[trigger] entries@[i]).0@ != (#[trigger] entries@[j]).0@ by {
                                assert(before[i].0@ != before[j].0@);
                            }
                        }
                        assert(all =~= done.insert(name, item).union_prefer_right(
                            entries_map(entries@),
                        ));
                    }
                    let keep: bool = now < HOUR_NANOS || session.last_accessed > now - HOUR_NANOS;
                    if keep {
                        self.sessions.insert(id, session);
                    }
                    proof {
                        let next = done.insert(name, item);
                        if keep {
                            assert(self.sessions@ =~= unexpired(next, now));
                        } else {
                            assert(self.sessions@ =~= unexpired(next, now));
                        }
                        done = next;
                    }
                },
                None => {},
            }
        }
        assert(entries_map(entries@) =~= Map::empty());
        assert(all =~= done);
        self.last_cleanup = now;
    }

    /// The session under `id`, used at `now`.
    fn touch(&mut self, id: &str, now: u128) -> (r: &mut Session)
        requires
            old(self).wf(),
            old(self).sessions().contains_key(id@),
        ensures
            *r == (Session { last_accessed: now, ..old(self).sessions()[id@] }),
            final(self).wf(),
            final(self).sessions() == old(self).sessions().insert(id@, *final(r)),
            final(self).last_cleanup() == old(self).last_cleanup(),
    {
        let r = self.sessions.get_mut(id);
        r.last_accessed = now;
        r
    }

    /// The sessions that are left at `now`.
    pub open spec fn left_at(self, now: u128) -> Map<Seq<char>, Session> {
        cleaned(self.sessions(), self.last_cleanup(), now)
    }

    /// The session that a request wants is left at `now`.
    pub open spec fn knows(self, wanted: Option<Seq<char>>, now: u128) -> bool {
        wanted matches Some(id) && self.left_at(now).contains_key(id)
    }

    /// The session that a request gets at `now`: the one that it wants, where it is left,
    /// else a new one.
    pub open spec fn opened(self, wanted: Option<Seq<char>>, now: u128) -> Session {
        if self.knows(wanted, now) {
            Session { last_accessed: now, ..self.left_at(now)[wanted->0] }
        } else {
            Session { pixiv: None, plus: None, last_accessed: now }
        }
    }

    /// The session that a request gets at `now` is under `id`: the id that it wants,
    /// where that session is left, else a random one.
    pub open spec fn opens(self, wanted: Option<Seq<char>>, now: u128, id: Seq<char>) -> bool {
        if self.knows(wanted, now) {
            wanted == Some(id)
        } else {
            is_random_uuid(id)
        }
    }

    /// The store becomes `after`: what is left at `now`, with `session` under `id`.
    pub open spec fn becomes(
        self,
        after: SessionStore,
        now: u128,
        id: Seq<char>,
        session: Session,
    ) -> bool {
        &&& after.wf()
        &&& after.sessions() == self.left_at(now).insert(id, session)
        &&& after.last_cleanup() == (if hour_passed(self.last_cleanup(), now) {
            now
        } else {
            self.last_cleanup()
        })
    }

    /// The session that a request gets at `now` is under `id`: the id that it wants,
    /// where that session is left, else `fresh`.
    pub open spec fn opens_as(
        self,
        wanted: Option<Seq<char>>,
        fresh: Seq<char>,
        now: u128,
        id: Seq<char>,
    ) -> bool {
        id == (if self.knows(wanted, now) {
            wanted->0
        } else {
            fresh
        })
    }

    /// The session that a request names, where there is one; else a new one under the
    /// id `fresh`. Sessions that expired are taken out before.
    pub fn get_or_create_as(&mut self, session_id: Option<&str>, fresh: String, now: u128) -> (r: (
        String,
        &mut Session,
    ))
        requires
            old(self).wf(),
        ensures
            old(self).opens_as(opt_str(session_id), fresh@, now, r.0@),
            *r.1 == old(self).opened(opt_str(session_id), now),
            old(self).becomes(*final(self), now, r.0@, *final(r.1)),
    {
        self.cleanup_if_needed(now);
        let ghost left = self.sessions@;
        let known: Option<String> = match session_id {
            Some(id) => {
                if self.sessions.contains(id) {
                    Some(id.to_owned())
                } else {
                    None
                }
            },
            None => None,
        };
        let id: String = match known {
            Some(id) => id,
            None => {
                self.sessions.insert(fresh.clone(), Session::new(now));
                fresh
            },
        };
        let ghost opened = self.sessions@;
        assert forall|s: Session| #[trigger] opened.insert(id@, s) == left.insert(id@, s) by {
            assert(opened.insert(id@, s) =~= left.insert(id@, s));
        }
        let session = self.touch(id.as_str(), now);
        (id, session)
    }

    /// The session that a request names, where there is one; else a new one under a
    /// random id. Sessions that expired are taken out before.
    pub fn get_or_create(&mut self, session_id: Option<&str>, now: u128) -> (r: (
        String,
        &mut Session,
    ))
        requires
            old(self).wf(),
        ensures
            old(self).opens(opt_str(session_id), now, r.0@),
            *r.1 == old(self).opened(opt_str(session_id), now),
            old(self).becomes(*final(self), now, r.0@, *final(r.1)),
    {
        let fresh: String = random_id();
        self.get_or_create_as(session_id, fresh, now)
    }

    /// The session of a request. `query` is the `sessionId` of its query.
    pub fn get_for_request(
        &mut self,
        headers: &HeaderMap<HeaderValue>,
        query: Option<&str>,
        now: u128,
    ) -> (r: (String, &mut Session))
        requires
            old(self).wf(),
        ensures
            old(self).opens(request_session(*headers, opt_str(query)), now, r.0@),
            *r.1 == old(self).opened(request_session(*headers, opt_str(query)), now),
            old(self).becomes(*final(self), now, r.0@, *final(r.1)),
    {
        let wanted: Option<String> = get_session_id(headers, query);
        let name: Option<&str> = match &wanted {
            Some(id) => Some(id.as_str()),
            None => None,
        };
        self.get_or_create(name, now)
    }

    /// The store becomes `after`: the session under `id` has `row` for its picture, where
    /// there is such a session.
    pub open spec fn puts_to(
        self,
        after: SessionStore,
        id: Seq<char>,
        row: Option<FileRow>,
    ) -> bool {
        &&& after.wf()
        &&& after.last_cleanup() == self.last_cleanup()
        &&& after.sessions() == (if self.sessions().contains_key(id) {
            self.sessions().insert(id, Session { pixiv: row, ..self.sessions()[id] })
        } else {
            self.sessions()
        })
    }

    /// The session under `id` remembers `row` as the picture that was shown last, where
    /// there is such a session.
    pub fn set_pixiv(&mut self, id: &str, row: Option<FileRow>)
        requires
            old(self).wf(),
        ensures
            old(self).puts_to(*final(self), id@, row),
    {
        if self.sessions.contains(id) {
            let session = self.sessions.get_mut(id);
            session.pixiv = row;
        }
    }
}

// ===================== Laws =====================
/// A session that was used less than an hour ago is not taken out, and not changed.
pub proof fn law_used_session_stays(
    sessions: Map<Seq<char>, Session>,
    last_cleanup: u128,
    now: u128,
    id: Seq<char>,
)
    requires
        sessions.contains_key(id),
        now - sessions[id].last_accessed < HOUR_NANOS,
    ensures
        cleaned(sessions, last_cleanup, now).contains_key(id),
        cleaned(sessions, last_cleanup, now)[id] == sessions[id],
{
}

/// Cleaning adds no session and changes none.
pub proof fn law_cleaning_only_takes_out(
    sessions: Map<Seq<char>, Session>,
    last_cleanup: u128,
    now: u128,
    id: Seq<char>,
)
    requires
        cleaned(sessions, last_cleanup, now).contains_key(id),
    ensures
        sessions.contains_key(id),
        cleaned(sessions, last_cleanup, now)[id] == sessions[id],
{
}

/// An hour after the last cleanup none is left that was not used for an hour.
pub proof fn law_unused_session_goes(
    sessions: Map<Seq<char>, Session>,
    last_cleanup: u128,
    now: u128,
    id: Seq<char>,
)
    requires
        hour_passed(last_cleanup, now),
        sessions.contains_key(id),
        hour_passed(sessions[id].last_accessed, now),
    ensures
        !cleaned(sessions, last_cleanup, now).contains_key(id),
{
}

/// A call on the store.
pub enum StoreCall {
    /// A request that wants `wanted` gets the session under `id` at `now`, and leaves
    /// `session` in it.
    Open { wanted: Option<Seq<char>>, now: u128, id: Seq<char>, session: Session },
    /// A cleanup at `now`.
    Clean { now: u128 },
    /// The session under `id` gets `row` for its picture.
    Put { id: Seq<char>, row: Option<FileRow> },
}

impl StoreCall {
    /// The call makes `after` of `before`.
    pub open spec fn makes(self, before: SessionStore, after: SessionStore) -> bool {
        match self {
            StoreCall::Open { wanted, now, id, session } => {
                &&& before.opens(wanted, now, id)
                &&& before.becomes(after, now, id, session)
            },
            StoreCall::Clean { now } => before.cleans_to(after, now),
            StoreCall::Put { id, row } => before.puts_to(after, id, row),
        }
    }

    /// The call is about another session, or finds the one under `id` there and leaves to it
    /// the row that it remembers of the kind.
    pub open spec fn keeps(self, before: SessionStore, id: Seq<char>, kind: MediaKind) -> bool {
        match self {
            StoreCall::Open { wanted, now, id: other, session } => other == id ==> {
                &&& before.knows(Some(id), now)
                &&& session.last_accessed == now
                &&& remembered_row(session, kind) == remembered_row(
                    before.opened(Some(id), now),
                    kind,
                )
            },
            StoreCall::Clean { now } => true,
            StoreCall::Put { id: other, row } => other == id ==> kind == MediaKind::Plus,
        }
    }

    /// The call does not come after `end`.
    pub open spec fn is_until(self, end: u128) -> bool {
        match self {
            StoreCall::Open { wanted, now, id, session } => now <= end,
            StoreCall::Clean { now } => now <= end,
            StoreCall::Put { id, row } => true,
        }
    }
}

/// The calls, one after the other, lead through the stores.
pub open spec fn is_history(stores: Seq<SessionStore>, calls: Seq<StoreCall>) -> bool {
    &&& stores.len() == calls.len() + 1
    &&& forall|k: int|
        0 <= k < calls.len() ==> (#[trigger] calls[k]).makes(stores[k], stores[k + 1])
}

/// When the session under `id` was last used, where it was used at `then` before the calls.
pub open spec fn last_use(calls: Seq<StoreCall>, id: Seq<char>, then: u128) -> u128
    decreases calls.len(),
{
    if calls.len() == 0 {
        then
    } else {
        match calls.last() {
            StoreCall::Open { wanted, now, id: other, session } => if other == id {
                now
            } else {
                last_use(calls.drop_last(), id, then)
            },
            _ => last_use(calls.drop_last(), id, then),
        }
    }
}

/// After calls that keep its row of a kind, a session remembers that row, unless it was
/// taken out an hour after its last use.
proof fn lemma_kept_or_gone(
    stores: Seq<SessionStore>,
    calls: Seq<StoreCall>,
    id: Seq<char>,
    kind: MediaKind,
    end: u128,
)
    requires
        is_history(stores, calls),
        stores[0].sessions().contains_key(id),
        forall|k: int|
            0 <= k < calls.len() ==> (#[trigger] calls[k]).keeps(stores[k], id, kind)
                && calls[k].is_until(end),
    ensures
        ({
            let first = stores[0].sessions()[id];
            let used = last_use(calls, id, first.last_accessed);
            if stores.last().sessions().contains_key(id) {
                &&& stores.last().sessions()[id].last_accessed == used
                &&& remembered_row(stores.last().sessions()[id], kind) == remembered_row(
                    first,
                    kind,
                )
            } else {
                hour_passed(used, end)
            }
        }),
    decreases calls.len(),
{
    if calls.len() > 0 {
        let n = calls.len() - 1;
        let before = stores.drop_last();
        let earlier = calls.drop_last();
        assert forall|k: int| 0 <= k < earlier.len() implies (#[trigger] earlier[k]).makes(
            before[k],
            before[k + 1],
        ) && earlier[k].keeps(before[k], id, kind) && earlier[k].is_until(end) by {
            assert(earlier[k] == calls[k]);
        }
        lemma_kept_or_gone(before, earlier, id, kind, end);
        let store = stores[n];
        assert(store == before.last());
        assert(stores[0] == before[0]);
        assert(calls[n].makes(store, stores[n + 1]));
        assert(calls[n].keeps(store, id, kind) && calls[n].is_until(end));
        assert(stores.last() == stores[n + 1]);
        assert(calls.last() == calls[n]);
    }
}

/// A session is found again, under its id and with the row that it remembers of a kind, by a
/// request less than an hour after its last use: across any calls about other sessions, and
/// any uses of its own that found it and left it that row, however long it was idle between
/// them.
pub proof fn law_used_session_remembers(
    stores: Seq<SessionStore>,
    calls: Seq<StoreCall>,
    id: Seq<char>,
    kind: MediaKind,
    now: u128,
)
    requires
        is_history(stores, calls),
        stores[0].sessions().contains_key(id),
        forall|k: int|
            0 <= k < calls.len() ==> (#[trigger] calls[k]).keeps(stores[k], id, kind)
                && calls[k].is_until(now),
        now - last_use(calls, id, stores[0].sessions()[id].last_accessed) < HOUR_NANOS,
    ensures
        stores.last().knows(Some(id), now),
        remembered_row(stores.last().opened(Some(id), now), kind) == remembered_row(
            stores[0].sessions()[id],
            kind,
        ),
        forall|found: Seq<char>| #[trigger]
            stores.last().opens(Some(id), now, found) ==> found == id,
{
    lemma_kept_or_gone(stores, calls, id, kind, now);
    let store = stores.last();
    law_used_session_stays(store.sessions(), store.last_cleanup(), now, id);
}

/// All ids of the sessions are random ones.
pub open spec fn random_ids(sessions: Map<Seq<char>, Session>) -> bool {
    forall|id: Seq<char>| #[trigger] sessions.contains_key(id) ==> is_random_uuid(id)
}

/// Where all ids are random ones, the id that a request gets is one, and all ids stay
/// so.
pub proof fn law_ids_stay_random(
    before: SessionStore,
    after: SessionStore,
    wanted: Option<Seq<char>>,
    now: u128,
    id: Seq<char>,
    session: Session,
)
    requires
        random_ids(before.sessions()),
        before.opens(wanted, now, id),
        before.becomes(after, now, id, session),
    ensures
        is_random_uuid(id),
        random_ids(after.sessions()),
{
    if before.knows(wanted, now) {
        assert(before.sessions().contains_key(id));
    }
    assert forall|other: Seq<char>| #[trigger]
        after.sessions().contains_key(other) implies is_random_uuid(other) by {
        if other != id {
            assert(before.sessions().contains_key(other));
        }
    }
}

/// A request that wants no session, or one that there is not, gets a new one that remembers
/// nothing; one that wants a session that was used in the last hour gets that one.
pub proof fn law_what_a_request_gets(store: SessionStore, wanted: Option<Seq<char>>, now: u128)
    ensures
        wanted is None ==> store.opened(wanted, now) == (Session {
            pixiv: None,
            plus: None,
            last_accessed: now,
        }),
        wanted matches Some(id) ==> !store.sessions().contains_key(id) ==> store.opened(
            wanted,
            now,
        ) == (Session { pixiv: None, plus: None, last_accessed: now }),
        wanted matches Some(id) ==> store.sessions().contains_key(id) && now
            - store.sessions()[id].last_accessed < 3_600_000_000_000 ==> {
            &&& store.opened(wanted, now).pixiv == store.sessions()[id].pixiv
            &&& store.opened(wanted, now).plus == store.sessions()[id].plus
            &&& store.opened(wanted, now).last_accessed == now
            &&& forall|found: Seq<char>| #[trigger]
                store.opens(wanted, now, found) ==> found == id
        },
{
}

/// A session that was not used for an hour is lost where the last cleanup is an hour ago:
/// a request that wants it gets a new one.
pub proof fn law_idle_session_is_lost(store: SessionStore, id: Seq<char>, now: u128)
    requires
        now - store.last_cleanup() >= 3_600_000_000_000,
        store.sessions().contains_key(id),
        now - store.sessions()[id].last_accessed >= 3_600_000_000_000,
    ensures
        store.opened(Some(id), now) == (Session { pixiv: None, plus: None, last_accessed: now }),
        forall|found: Seq<char>| #[trigger]
            store.opens(Some(id), now, found) ==> is_random_uuid(found),
{
}

/// Less than an hour after the last cleanup no session is lost.
pub proof fn law_no_session_is_lost_before_an_hour(store: SessionStore, id: Seq<char>, now: u128)
    requires
        now - store.last_cleanup() < 3_600_000_000_000,
        store.sessions().contains_key(id),
    ensures
        store.knows(Some(id), now),
        store.opened(Some(id), now).pixiv == store.sessions()[id].pixiv,
        store.opened(Some(id), now).plus == store.sessions()[id].plus,
{
}

/// A request changes no session but its own.
pub proof fn law_other_sessions_stay(
    before: SessionStore,
    after: SessionStore,
    now: u128,
    id: Seq<char>,
    session: Session,
    other: Seq<char>,
)
    requires
        before.becomes(after, now, id, session),
        other != id,
    ensures
        after.sessions().contains_key(other) ==> before.sessions().contains_key(other)
            && after.sessions()[other] == before.sessions()[other],
        before.sessions().contains_key(other) && now - before.sessions()[other].last_accessed
            < 3_600_000_000_000 ==> after.sessions().contains_key(other),
        after.sessions().contains_key(id) && after.sessions()[id] == session,
{
}

/// What a session remembers of pictures is its picture, and of videos its video.
pub proof fn law_rows_of_session(session: Session)
    ensures
        remembered_row(session, MediaKind::Pixiv) == session.pixiv,
        remembered_row(session, MediaKind::Plus) == session.plus,
{
}

/// An hour after the last cleanup a request takes out every session but its own that was not
/// used for an hour. Then none is lost for an hour.
pub proof fn law_request_takes_out_idle(
    before: SessionStore,
    after: SessionStore,
    now: u128,
    id: Seq<char>,
    session: Session,
    other: Seq<char>,
    later: u128,
)
    requires
        before.becomes(after, now, id, session),
        other != id,
    ensures
        now - before.last_cleanup() >= 3_600_000_000_000 && before.sessions().contains_key(other)
            && now - before.sessions()[other].last_accessed >= 3_600_000_000_000
            ==> !after.sessions().contains_key(other),
        now - before.last_cleanup() >= 3_600_000_000_000 && later - now < 3_600_000_000_000
            && after.sessions().contains_key(other) ==> after.knows(Some(other), later),
        now - before.last_cleanup() < 3_600_000_000_000 && later - before.last_cleanup()
            >= 3_600_000_000_000 && after.sessions().contains_key(other) && later
            - after.sessions()[other].last_accessed >= 3_600_000_000_000 ==> !after.knows(
            Some(other),
            later,
        ),
{
}

/// A cleanup takes out the sessions that were not used for an hour, where the last one is an
/// hour ago, and changes none. Then none is lost for an hour.
pub proof fn law_cleanup_takes_out_idle(
    before: SessionStore,
    after: SessionStore,
    now: u128,
    id: Seq<char>,
    later: u128,
)
    requires
        before.cleans_to(after, now),
    ensures
        now - before.last_cleanup() >= 3_600_000_000_000 ==> {
            &&& after.sessions().contains_key(id) <==> before.sessions().contains_key(id) && now
                - before.sessions()[id].last_accessed < 3_600_000_000_000
            &&& later - now < 3_600_000_000_000 && after.sessions().contains_key(id)
                ==> after.knows(Some(id), later)
        },
        now - before.last_cleanup() < 3_600_000_000_000 ==> {
            &&& after.sessions().contains_key(id) <==> before.sessions().contains_key(id)
            &&& after.last_cleanup() == before.last_cleanup()
        },
        after.sessions().contains_key(id) ==> after.sessions()[id] == before.sessions()[id],
{
}

/// A picture that is put into a session is what the session remembers of pictures; its video,
/// its last use and all other sessions stay, and no session is made.
pub proof fn law_picture_is_put(
    before: SessionStore,
    after: SessionStore,
    id: Seq<char>,
    row: Option<FileRow>,
    other: Seq<char>,
)
    requires
        before.puts_to(after, id, row),
    ensures
        after.sessions().contains_key(other) <==> before.sessions().contains_key(other),
        before.sessions().contains_key(id) ==> {
            &&& after.sessions()[id].pixiv == row
            &&& after.sessions()[id].plus == before.sessions()[id].plus
            &&& after.sessions()[id].last_accessed == before.sessions()[id].last_accessed
        },
        other != id && before.sessions().contains_key(other) ==> after.sessions()[other]
            == before.sessions()[other],
        forall|now: u128| #[trigger]
            after.knows(Some(other), now) <==> before.knows(Some(other), now),
{
    assert forall|now: u128| #[trigger]
        after.knows(Some(other), now) <==> before.knows(Some(other), now) by {
        assert(unexpired(after.sessions(), now).contains_key(other) <==> unexpired(
            before.sessions(),
            now,
        ).contains_key(other));
    }
}

/// A new store knows no session: whatever a request wants, it gets a new one under the id
/// that is at hand for it.
pub proof fn law_fresh_store(
    store: SessionStore,
    start: u128,
    wanted: Option<Seq<char>>,
    fresh: Seq<char>,
    now: u128,
    id: Seq<char>,
)
    requires
        store.is_fresh(start),
        store.opens_as(wanted, fresh, now, id),
    ensures
        store.last_cleanup() == start,
        id == fresh,
        store.opened(wanted, now) == (Session { pixiv: None, plus: None, last_accessed: now }),
{
}

/// A request that wants a session that was used in the last hour gets it under its own id,
/// whatever id is at hand for a new one.
pub proof fn law_known_session_keeps_id(
    store: SessionStore,
    wanted: Seq<char>,
    fresh: Seq<char>,
    now: u128,
    id: Seq<char>,
)
    requires
        store.opens_as(Some(wanted), fresh, now, id),
        store.sessions().contains_key(wanted),
    ensures
        now - store.sessions()[wanted].last_accessed < 3_600_000_000_000 ==> id == wanted,
        now - store.last_cleanup() < 3_600_000_000_000 ==> id == wanted,
        now - store.last_cleanup() >= 3_600_000_000_000 && now
            - store.sessions()[wanted].last_accessed >= 3_600_000_000_000 ==> id == fresh,
{
}

} // verus!
