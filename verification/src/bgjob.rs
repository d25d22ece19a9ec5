//! Background job tracking for `bgapi` commands.
//!
//! Every `bgapi` call returns a Job-UUID at once; the result arrives later as
//! a `BACKGROUND_JOB` event. A [`BgJobTracker`] remembers the pending
//! Job-UUIDs, each with a context of the caller's, and hands the context back
//! when the matching event arrives.

use crate::command::{parse_api_body, spec_api_payload};
use crate::error::EslResult;
use crate::event::{opt_str_view, EslEvent, EslEventType};
use crate::header_map::lookup;
use crate::text::str_eq;
use vstd::prelude::*;

verus! {

broadcast use vstd::string::group_string_axioms;

/// No Job-UUID occurs twice.
pub open spec fn uuids_distinct<C>(s: Seq<(String, C)>) -> bool {
    forall|i: int, j: int| 0 <= i < j < s.len() ==> s[i].0@ != s[j].0@
}

/// The pending jobs as a map from Job-UUID to context.
pub open spec fn pending_map<C>(s: Seq<(String, C)>) -> Map<Seq<char>, C>
    decreases s.len(),
{
    if s.len() == 0 {
        Map::empty()
    } else {
        pending_map(s.drop_last()).insert(s.last().0@, s.last().1)
    }
}

/// The pending map holds finitely many Job-UUIDs.
proof fn lemma_pending_finite<C>(s: Seq<(String, C)>)
    ensures
        pending_map(s).dom().finite(),
    decreases s.len(),
{
    if s.len() > 0 {
        lemma_pending_finite(s.drop_last());
    }
}

/// A Job-UUID is in the map exactly when some entry holds it.
proof fn lemma_pending_dom<C>(s: Seq<(String, C)>, k: Seq<char>)
    ensures
        pending_map(s).dom().contains(k) <==> exists|i: int| 0 <= i < s.len() && s[i].0@ == k,
    decreases s.len(),
{
    if s.len() > 0 {
        let d = s.drop_last();
        lemma_pending_dom(d, k);
        if pending_map(s).dom().contains(k) {
            if k != s.last().0@ {
                let i = choose|i: int| 0 <= i < d.len() && d[i].0@ == k;
                assert(s[i] == d[i]);
            } else {
                assert(s[s.len() - 1].0@ == k);
            }
        }
        if exists|i: int| 0 <= i < s.len() && s[i].0@ == k {
            let i = choose|i: int| 0 <= i < s.len() && s[i].0@ == k;
            if i < s.len() - 1 {
                assert(d[i] == s[i]);
            }
        }
    }
}

/// With distinct Job-UUIDs, the map holds each entry's context.
proof fn lemma_pending_value<C>(s: Seq<(String, C)>, i: int)
    requires
        uuids_distinct(s),
        0 <= i < s.len(),
    ensures
        pending_map(s).dom().contains(s[i].0@),
        pending_map(s)[s[i].0@] == s[i].1,
    decreases s.len(),
{
    let d = s.drop_last();
    if i < s.len() - 1 {
        assert(uuids_distinct(d));
        assert(d[i] == s[i]);
        lemma_pending_value(d, i);
    }
}

/// With distinct Job-UUIDs, the map has one key per entry.
proof fn lemma_pending_len<C>(s: Seq<(String, C)>)
    requires
        uuids_distinct(s),
    ensures
        pending_map(s).dom().finite(),
        pending_map(s).len() == s.len(),
    decreases s.len(),
{
    if s.len() > 0 {
        let d = s.drop_last();
        assert(uuids_distinct(d));
        lemma_pending_len(d);
        lemma_pending_dom(d, s.last().0@);
        if pending_map(d).dom().contains(s.last().0@) {
            let i = choose|i: int| 0 <= i < d.len() && d[i].0@ == s.last().0@;
            assert(s[i] == d[i]);
        }
    }
}

/// Removing the entry at `i` removes its Job-UUID from the map.
proof fn lemma_pending_remove<C>(s: Seq<(String, C)>, i: int)
    requires
        uuids_distinct(s),
        0 <= i < s.len(),
    ensures
        uuids_distinct(s.remove(i)),
        pending_map(s.remove(i)) =~= pending_map(s).remove(s[i].0@),
{
    let t = s.remove(i);
    let k = s[i].0@;
    assert forall|a: int, b: int| 0 <= a < b < t.len() implies t[a].0@ != t[b].0@ by {
        let a1 = if a < i { a } else { a + 1 };
        let b1 = if b < i { b } else { b + 1 };
        assert(t[a] == s[a1]);
        assert(t[b] == s[b1]);
    }
    assert forall|x: Seq<char>| #[trigger] pending_map(t).dom().contains(x) <==> pending_map(s).remove(k).dom().contains(x) by {
        lemma_pending_dom(t, x);
        lemma_pending_dom(s, x);
        if exists|j: int| 0 <= j < t.len() && t[j].0@ == x {
            let j = choose|j: int| 0 <= j < t.len() && t[j].0@ == x;
            let j1 = if j < i { j } else { j + 1 };
            assert(t[j] == s[j1]);
        }
        if x != k && exists|j: int| 0 <= j < s.len() && s[j].0@ == x {
            let j = choose|j: int| 0 <= j < s.len() && s[j].0@ == x;
            assert(j != i);
            let j1 = if j < i { j } else { j - 1 };
            assert(t[j1] == s[j]);
        }
    }
    assert forall|x: Seq<char>| #[trigger] pending_map(t).dom().contains(x) implies pending_map(t)[x] == pending_map(s).remove(k)[x] by {
        lemma_pending_dom(t, x);
        let j = choose|j: int| 0 <= j < t.len() && t[j].0@ == x;
        let j1 = if j < i { j } else { j + 1 };
        assert(t[j] == s[j1]);
        lemma_pending_value(t, j);
        lemma_pending_value(s, j1);
    }
}

/// Replacing the context of the entry at `i` updates the map.
proof fn lemma_pending_update<C>(s: Seq<(String, C)>, i: int, e: (String, C))
    requires
        uuids_distinct(s),
        0 <= i < s.len(),
        e.0@ == s[i].0@,
    ensures
        uuids_distinct(s.update(i, e)),
        pending_map(s.update(i, e)) =~= pending_map(s).insert(e.0@, e.1),
{
    let t = s.update(i, e);
    assert forall|a: int, b: int| 0 <= a < b < t.len() implies t[a].0@ != t[b].0@ by {}
    assert forall|x: Seq<char>| #[trigger] pending_map(t).dom().contains(x) <==> pending_map(s).insert(e.0@, e.1).dom().contains(x) by {
        lemma_pending_dom(t, x);
        lemma_pending_dom(s, x);
        if exists|j: int| 0 <= j < s.len() && s[j].0@ == x {
            let j = choose|j: int| 0 <= j < s.len() && s[j].0@ == x;
            assert(t[j].0@ == x);
        }
        if x == e.0@ {
            assert(t[i].0@ == x);
        }
        if exists|j: int| 0 <= j < t.len() && t[j].0@ == x {
            let j = choose|j: int| 0 <= j < t.len() && t[j].0@ == x;
            assert(s[j].0@ == x);
        }
    }
    assert forall|x: Seq<char>| #[trigger] pending_map(t).dom().contains(x) implies pending_map(t)[x] == pending_map(s).insert(e.0@, e.1)[x] by {
        lemma_pending_dom(t, x);
        let j = choose|j: int| 0 <= j < t.len() && t[j].0@ == x;
        lemma_pending_value(t, j);
        if j != i {
            lemma_pending_value(s, j);
        }
    }
}

/// Tracks pending `bgapi` commands and correlates `BACKGROUND_JOB` events to
/// their originating call, handing back the caller's context `C`.
#[derive(Debug)]
pub struct BgJobTracker<C> {
    pending: Vec<(String, C)>,
}

/// Index of the entry for `k`, if any.
fn position<C>(v: &Vec<(String, C)>, k: &str) -> (r: Option<usize>)
    ensures
        match r {
            Some(i) => i < v@.len() && v@[i as int].0@ == k@,
            None => forall|j: int| 0 <= j < v@.len() ==> v@[j].0@ != k@,
        },
{
    let mut i: usize = 0;
    while i < v.len()
        invariant
            i <= v.len(),
            forall|j: int| 0 <= j < i ==> v@[j].0@ != k@,
        decreases v.len() - i,
    {
        if str_eq(v[i].0.as_str(), k) {
            return Some(i);
        }
        i += 1;
    }
    None
}

impl<C> BgJobTracker<C> {
    #[verifier::type_invariant]
    spec fn inv(self) -> bool {
        uuids_distinct(self.pending@)
    }

    /// The pending jobs: Job-UUID to context.
    pub closed spec fn view(self) -> Map<Seq<char>, C> {
        pending_map(self.pending@)
    }

    /// Create an empty tracker.
    pub fn new() -> (r: BgJobTracker<C>)
        ensures
            r.view() == Map::<Seq<char>, C>::empty(),
            r.view().dom().finite(),
    {
        BgJobTracker { pending: Vec::new() }
    }

    /// Register a sent `bgapi` by its Job-UUID; a Job-UUID already tracked
    /// takes the new context.
    pub fn track(&mut self, job_uuid: String, ctx: C)
        ensures
            final(self).view() == old(self).view().insert(job_uuid@, ctx),
            old(self).view().dom().finite(),
            final(self).view().dom().finite(),
    {
        proof {
            use_type_invariant(&*self);
            lemma_pending_finite(self.pending@);
        }
        let mut v: Vec<(String, C)> = Vec::new();
        std::mem::swap(&mut v, &mut self.pending);
        let ghost s = v@;
        match position(&v, job_uuid.as_str()) {
            Some(i) => {
                let k = job_uuid;
                proof {
                    lemma_pending_update(s, i as int, (k, ctx));
                }
                v.set(i, (k, ctx));
            },
            None => {
                proof {
                    assert(uuids_distinct(s.push((job_uuid, ctx))));
                    assert(s.push((job_uuid, ctx)).drop_last() =~= s);
                }
                v.push((job_uuid, ctx));
            },
        }
        self.pending = v;
    }

    /// Number of jobs awaiting completion.
    pub fn pending_count(&self) -> (r: usize)
        ensures
            r == self.view().len(),
            self.view().dom().finite(),
    {
        proof {
            use_type_invariant(self);
            lemma_pending_finite(self.pending@);
            lemma_pending_len(self.pending@);
        }
        self.pending.len()
    }

    /// Whether a Job-UUID is being tracked.
    pub fn is_pending(&self, job_uuid: &str) -> (r: bool)
        ensures
            r == self.view().dom().contains(job_uuid@),
            self.view().dom().finite(),
    {
        proof {
            lemma_pending_finite(self.pending@);
            lemma_pending_dom(self.pending@, job_uuid@);
        }
        position(&self.pending, job_uuid).is_some()
    }

    /// Stop tracking a job without completing it; its context, if it was
    /// pending.
    pub fn cancel(&mut self, job_uuid: &str) -> (r: Option<C>)
        ensures
            final(self).view() == old(self).view().remove(job_uuid@),
            match r {
                Some(c) => old(self).view().dom().contains(job_uuid@) && old(self).view()[job_uuid@] == c,
                None => !old(self).view().dom().contains(job_uuid@),
            },
            old(self).view().dom().finite(),
            final(self).view().dom().finite(),
    {
        proof {
            use_type_invariant(&*self);
            lemma_pending_finite(self.pending@);
            lemma_pending_dom(self.pending@, job_uuid@);
        }
        let mut v: Vec<(String, C)> = Vec::new();
        std::mem::swap(&mut v, &mut self.pending);
        let ghost s = v@;
        let r = match position(&v, job_uuid) {
            Some(i) => {
                proof {
                    lemma_pending_value(s, i as int);
                    lemma_pending_remove(s, i as int);
                }
                let (_, c) = v.remove(i);
                Some(c)
            },
            None => {
                assert(pending_map(s).remove(job_uuid@) =~= pending_map(s));
                None
            },
        };
        self.pending = v;
        r
    }

    /// Complete a pending job: when `event` is a `BACKGROUND_JOB` whose
    /// Job-UUID is tracked, the job stops being tracked and its context comes
    /// back with the event; any other event changes nothing.
    pub fn try_complete<'e>(&mut self, event: &'e EslEvent) -> (r: Option<(C, BgJobResult<'e>)>)
        ensures
            ({
                let k = lookup(event.header_entries(), "Job-UUID"@);
                if event.type_view() == Some(EslEventType::BackgroundJob) && k is Some
                    && old(self).view().dom().contains(k.unwrap()) {
                    &&& r matches Some((c, res)) && c == old(self).view()[k.unwrap()] && res.event_view() == *event
                    &&& final(self).view() == old(self).view().remove(k.unwrap())
                } else {
                    &&& r is None
                    &&& final(self).view() == old(self).view()
                }
            }),
            old(self).view().dom().finite(),
            final(self).view().dom().finite(),
    {
        proof {
            use_type_invariant(&*self);
            lemma_pending_finite(self.pending@);
        }
        if !event.is_event_type(EslEventType::BackgroundJob) {
            return None;
        }
        let job_uuid = match event.job_uuid() {
            Some(u) => u,
            None => {
                return None;
            },
        };
        match self.cancel(job_uuid) {
            Some(c) => Some((c, BgJobResult(event))),
            None => None,
        }
    }
}

/// A job just tracked is pending with the context it was tracked with;
/// completing or cancelling it hands that context back and leaves the other
/// jobs as they were before it was tracked.
pub proof fn lemma_track_then_settle<C>(pending: Map<Seq<char>, C>, job_uuid: Seq<char>, ctx: C)
    ensures
        pending.insert(job_uuid, ctx).dom().contains(job_uuid),
        pending.insert(job_uuid, ctx)[job_uuid] == ctx,
        pending.insert(job_uuid, ctx).remove(job_uuid) == pending.remove(job_uuid),
{
    assert(pending.insert(job_uuid, ctx).remove(job_uuid) =~= pending.remove(job_uuid));
}

/// A job is settled at most once: once it has been completed or cancelled it
/// is no longer pending, so a second completion or cancel finds nothing.
pub proof fn lemma_settle_once<C>(pending: Map<Seq<char>, C>, job_uuid: Seq<char>)
    ensures
        !pending.remove(job_uuid).dom().contains(job_uuid),
        pending.remove(job_uuid).remove(job_uuid) == pending.remove(job_uuid),
{
    assert(pending.remove(job_uuid).remove(job_uuid) =~= pending.remove(job_uuid));
}

/// The pending count after tracking grows by one for a new Job-UUID and
/// stays for one already pending; after settling it drops by one for a
/// pending Job-UUID and stays otherwise.
pub proof fn lemma_pending_counts<C>(pending: Map<Seq<char>, C>, job_uuid: Seq<char>, ctx: C)
    requires
        pending.dom().finite(),
    ensures
        pending.insert(job_uuid, ctx).len() == pending.len() + if pending.dom().contains(job_uuid) {
            0int
        } else {
            1int
        },
        pending.remove(job_uuid).len() == pending.len() - if pending.dom().contains(job_uuid) {
            1int
        } else {
            0int
        },
{
    if pending.dom().contains(job_uuid) {
        assert(pending.dom().insert(job_uuid) =~= pending.dom());
    } else {
        assert(pending.dom().remove(job_uuid) =~= pending.dom());
    }
}

/// A `BACKGROUND_JOB` event returned by [`BgJobTracker::try_complete`].
#[derive(Debug)]
pub struct BgJobResult<'a>(pub &'a EslEvent);

impl<C> Default for BgJobTracker<C> {
    /// An empty tracker.
    fn default() -> (r: BgJobTracker<C>)
        ensures
            r.view() == Map::<Seq<char>, C>::empty(),
            r.view().dom().finite(),
    {
        BgJobTracker::new()
    }
}

impl<'a> BgJobResult<'a> {
    /// The event.
    pub open spec fn event_view(self) -> EslEvent {
        *self.0
    }

    /// The Job-UUID header from the event.
    pub fn job_uuid(&self) -> (r: Option<&str>)
        ensures
            opt_str_view(r) == lookup(self.0.header_entries(), "Job-UUID"@),
    {
        self.0.job_uuid()
    }

    /// The raw result body (the output of the original `bgapi` command).
    pub fn body(&self) -> (r: Option<&'a str>)
        ensures
            opt_str_view(r) == self.0.body_view(),
    {
        self.0.body()
    }

    /// Parse the result body (an absent body reads as empty), handling
    /// `+OK`/`-ERR` prefixes the way `parse_api_body` does.
    pub fn parse_body(&self) -> (r: EslResult<&'a str>)
        ensures
            ({
                let b = match self.0.body_view() {
                    Some(b) => b,
                    None => Seq::<char>::empty(),
                };
                match r {
                    Ok(p) => spec_api_payload(b) == Ok::<Seq<char>, ()>(p@),
                    Err(_) => spec_api_payload(b) is Err,
                }
            }),
    {
        let body: &'a str = match self.0.body() {
            Some(b) => b,
            None => "",
        };
        proof {
            reveal_strlit("");
            assert(""@ =~= Seq::<char>::empty());
        }
        parse_api_body(body)
    }

    /// The underlying event.
    pub fn event(&self) -> (r: &'a EslEvent)
        ensures
            *r == *self.0,
    {
        self.0
    }
}

} // verus!
