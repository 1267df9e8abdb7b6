//! The in-memory ring of recent flows: a bounded first-in-first-out buffer that keeps
//! the latest records for history queries and detail views.
use vstd::prelude::*;
use std::collections::VecDeque;
use crate::flow::{Flow, FlowMsgView, FlowView, copy_flow, flows_view};
use crate::message::{header_lookup, uri_authority, uri_authority_str};
use crate::text::{chars_of, matches_at, str_eq};

verus! {

/// Default number of flows kept.
pub const DEFAULT_MAX_FLOWS: usize = 5000;

/// The flows in order of insertion, oldest first, holding at most `max_flows` records
/// (one when the limit is zero). Storing a flow whose id is already present replaces the
/// newest record with that id; storing a new flow when the store is full evicts the
/// oldest.
pub struct FlowStore {
    flows: VecDeque<Flow>,
    max_flows: usize,
}

/// Most records a store with limit `max` holds.
pub open spec fn store_bound(max: usize) -> nat {
    if max == 0 {
        1
    } else {
        max as nat
    }
}

/// `i` is the newest position whose flow has id `id`.
pub open spec fn is_last_with_id(s: Seq<FlowView>, id: Seq<char>, i: int) -> bool {
    &&& 0 <= i < s.len()
    &&& s[i].id == id
    &&& forall|j: int| i < j < s.len() ==> (#[trigger] s[j]).id != id
}

/// Newest position holding a flow with the given id.
pub open spec fn last_with_id(s: Seq<FlowView>, id: Seq<char>) -> Option<int> {
    if exists|i: int| #[trigger] is_last_with_id(s, id, i) {
        Some(choose|i: int| #[trigger] is_last_with_id(s, id, i))
    } else {
        None
    }
}

/// The store after `upsert(f)` with limit `max`.
pub open spec fn upsert_spec(s: Seq<FlowView>, max: usize, f: FlowView) -> Seq<FlowView> {
    match last_with_id(s, f.id) {
        Some(i) => s.update(i, f),
        None => if s.len() >= max && s.len() > 0 {
            s.drop_first().push(f)
        } else {
            s.push(f)
        },
    }
}

/// What `get(id)` gives: the newest flow with that id.
pub open spec fn get_spec(s: Seq<FlowView>, id: Seq<char>) -> Option<FlowView> {
    match last_with_id(s, id) {
        Some(i) => Some(s[i]),
        None => None,
    }
}

/// `skip(offset).take(limit)` of a sequence.
pub open spec fn page(s: Seq<FlowView>, limit: nat, offset: nat) -> Seq<FlowView> {
    if offset >= s.len() {
        Seq::empty()
    } else if offset + limit >= s.len() {
        s.subrange(offset as int, s.len() as int)
    } else {
        s.subrange(offset as int, (offset + limit) as int)
    }
}

/// The host a recorded request was sent to: its `Host` header, else the authority of
/// its URI, else nothing.
pub open spec fn flow_host(m: FlowMsgView) -> Seq<char> {
    match header_lookup(m.headers, seq!['h', 'o', 's', 't']) {
        Some(h) => h,
        None => match uri_authority(m.uri) {
            Some(a) => a,
            None => Seq::empty(),
        },
    }
}

/// `str::contains`.
pub open spec fn contains_text(s: Seq<char>, p: Seq<char>) -> bool {
    exists|i: int| 0 <= i <= s.len() - p.len() && #[trigger] matches_at(s, p, i)
}

/// The flows whose host contains `pattern`, newest first.
pub open spec fn newest_matching(s: Seq<FlowView>, pattern: Seq<char>) -> Seq<FlowView>
    decreases s.len(),
{
    if s.len() == 0 {
        Seq::empty()
    } else {
        let rest = newest_matching(s.drop_first(), pattern);
        if contains_text(flow_host(s[0].request), pattern) {
            rest.push(s[0])
        } else {
            rest
        }
    }
}

impl View for FlowStore {
    type V = Seq<FlowView>;

    closed spec fn view(&self) -> Seq<FlowView> {
        flows_view(self.flows@)
    }
}

fn contains_text_exec(s: &str, p: &str) -> (r: bool)
    ensures
        r == contains_text(s@, p@),
{
    let sv = chars_of(s);
    let pv = chars_of(p);
    if pv.len() > sv.len() {
        return false;
    }
    let last = sv.len() - pv.len();
    let mut i: usize = 0;
    while i < last
        invariant
            pv.len() <= sv.len(),
            last == sv.len() - pv.len(),
            i <= last,
            sv@ == s@,
            pv@ == p@,
            forall|j: int| 0 <= j < i ==> !#[trigger] matches_at(s@, p@, j),
        decreases last - i,
    {
        if crate::text::matches_at_exec(&sv, &pv, i) {
            return true;
        }
        i += 1;
    }
    crate::text::matches_at_exec(&sv, &pv, last)
}

/// Host of a recorded request, as `flow_host` describes it.
fn flow_host_exec(m: &crate::flow::HttpMessage) -> (r: &str)
    ensures
        r@ == flow_host(m@),
{
    proof {
        reveal_strlit("host");
        assert("host"@ =~= seq!['h', 'o', 's', 't']);
    }
    match m.header("host") {
        Some(h) => h,
        None => match uri_authority_str(m.uri.as_str()) {
            Some(a) => a,
            None => {
                proof {
                    reveal_strlit("");
                }
                ""
            },
        },
    }
}

impl FlowStore {
    #[verifier::type_invariant]
    closed spec fn bounded(self) -> bool {
        self.flows@.len() <= store_bound(self.max_flows)
    }

    /// The limit the store was made with.
    pub closed spec fn max(&self) -> usize {
        self.max_flows
    }

    /// A store keeping the default number of flows.
    pub fn new() -> (r: Self)
        ensures
            r@ == Seq::<FlowView>::empty(),
            r.max() == DEFAULT_MAX_FLOWS,
    {
        FlowStore::with_capacity(DEFAULT_MAX_FLOWS)
    }

    /// A store keeping at most `max_flows` flows.
    pub fn with_capacity(max_flows: usize) -> (r: Self)
        ensures
            r@ == Seq::<FlowView>::empty(),
            r.max() == max_flows,
    {
        let r = FlowStore { flows: VecDeque::new(), max_flows };
        assert(r@ =~= Seq::<FlowView>::empty());
        r
    }

    /// Index of the newest flow with the given id.
    fn find_last(&self, id: &str) -> (r: Option<usize>)
        ensures
            r matches Some(i) ==> last_with_id(self@, id@) == Some(i as int) && i < self@.len(),
            r is None ==> last_with_id(self@, id@) is None,
    {
        let ghost s = self@;
        let mut i = self.flows.len();
        while i > 0
            invariant
                i <= self.flows@.len(),
                s == self@,
                s.len() == self.flows@.len(),
                forall|j: int| i <= j < s.len() ==> (#[trigger] s[j]).id != id@,
            decreases i,
        {
            i -= 1;
            assert(s[i as int] == self.flows@[i as int]@);
            if str_eq(self.flows[i].id.as_str(), id) {
                assert(is_last_with_id(s, id@, i as int));
                proof {
                    let k = choose|k: int| #[trigger] is_last_with_id(s, id@, k);
                    assert(k == i);
                }
                return Some(i);
            }
        }
        assert(!exists|k: int| #[trigger] is_last_with_id(s, id@, k));
        None
    }

    /// Stores a flow: replaces the newest record with the same id, or appends it,
    /// evicting the oldest record when the store is full.
    pub fn upsert(&mut self, flow: Flow)
        ensures
            final(self)@ == upsert_spec(old(self)@, old(self).max(), flow@),
            final(self).max() == old(self).max(),
            final(self)@.len() <= store_bound(final(self).max()),
    {
        proof {
            use_type_invariant(&*self);
            lemma_upsert_bounded(self@, self.max_flows, flow@);
        }
        let ghost s = self@;
        let ghost f = flow@;
        let mut flows: VecDeque<Flow> = VecDeque::new();
        std::mem::swap(&mut flows, &mut self.flows);
        let found = {
            let tmp = FlowStore { flows, max_flows: self.max_flows };
            let r = tmp.find_last(flow.id.as_str());
            flows = tmp.flows;
            r
        };
        match found {
            Some(i) => {
                let _old = flows.remove(i);
                flows.insert(i, flow);
                assert(flows_view(flows@) =~= s.update(i as int, f));
            },
            None => {
                if flows.len() >= self.max_flows && flows.len() > 0 {
                    let _evicted = flows.pop_front();
                    assert(flows_view(flows@) =~= s.drop_first());
                }
                flows.push_back(flow);
                proof {
                    if s.len() >= self.max_flows && s.len() > 0 {
                        assert(flows_view(flows@) =~= s.drop_first().push(f));
                    } else {
                        assert(flows_view(flows@) =~= s.push(f));
                    }
                }
            },
        }
        self.flows = flows;
    }

    /// A copy of the newest flow with the given id.
    pub fn get(&self, id: &str) -> (r: Option<Flow>)
        ensures
            match get_spec(self@, id@) {
                Some(f) => r matches Some(g) && g@ == f,
                None => r is None,
            },
    {
        match self.find_last(id) {
            Some(i) => {
                assert(self@[i as int] == self.flows@[i as int]@);
                Some(copy_flow(&self.flows[i]))
            },
            None => None,
        }
    }

    /// The latest flows, newest first: `limit` of them after skipping `offset`.
    pub fn query_recent(&self, limit: usize, offset: usize) -> (r: Vec<Flow>)
        ensures
            flows_view(r@) == page(self@.reverse(), limit as nat, offset as nat),
    {
        let ghost rev = self@.reverse();
        let n = self.flows.len();
        let mut out: Vec<Flow> = Vec::new();
        if offset >= n {
            assert(flows_view(out@) =~= page(rev, limit as nat, offset as nat));
            return out;
        }
        let end = if limit >= n - offset {
            n
        } else {
            offset + limit
        };
        let mut k = offset;
        while k < end
            invariant
                offset <= k <= end <= n,
                n == self.flows@.len(),
                rev == self@.reverse(),
                rev.len() == n,
                flows_view(out@) == rev.subrange(offset as int, k as int),
            decreases end - k,
        {
            let idx = n - 1 - k;
            assert(rev[k as int] == self@[idx as int]);
            assert(self@[idx as int] == self.flows@[idx as int]@);
            let ghost prev = out@;
            let c = copy_flow(&self.flows[idx]);
            out.push(c);
            assert(out@ == prev.push(c));
            assert(flows_view(out@) =~= flows_view(prev).push(rev[k as int]));
            k += 1;
            assert(flows_view(out@) =~= rev.subrange(offset as int, k as int));
        }
        assert(flows_view(out@) =~= page(rev, limit as nat, offset as nat));
        out
    }

    /// The latest flows whose host contains `host_pattern`, newest first: `limit` of
    /// them after skipping `offset`.
    pub fn query_by_host(&self, host_pattern: &str, limit: usize, offset: usize) -> (r: Vec<Flow>)
        ensures
            flows_view(r@) == page(newest_matching(self@, host_pattern@), limit as nat, offset as nat),
    {
        let ghost s = self@;
        let n = self.flows.len();
        let mut all: Vec<Flow> = Vec::new();
        let mut i = n;
        assert(s.subrange(n as int, n as int) =~= Seq::<FlowView>::empty());
        while i > 0
            invariant
                i <= n,
                n == self.flows@.len(),
                s == self@,
                s.len() == n,
                flows_view(all@) == newest_matching(s.subrange(i as int, n as int), host_pattern@),
            decreases i,
        {
            i -= 1;
            let ghost tail = s.subrange(i as int, n as int);
            assert(tail.drop_first() =~= s.subrange(i + 1, n as int));
            assert(tail[0] == s[i as int]);
            assert(s[i as int] == self.flows@[i as int]@);
            let h = flow_host_exec(&self.flows[i].request);
            if contains_text_exec(h, host_pattern) {
                let ghost prev = all@;
                all.push(copy_flow(&self.flows[i]));
                assert(flows_view(all@) =~= flows_view(prev).push(s[i as int]));
            }
        }
        assert(s.subrange(0, n as int) =~= s);
        let ghost m = flows_view(all@);
        let total = all.len();
        let mut out: Vec<Flow> = Vec::new();
        if offset >= total {
            assert(flows_view(out@) =~= page(m, limit as nat, offset as nat));
            return out;
        }
        let end = if limit >= total - offset {
            total
        } else {
            offset + limit
        };
        let mut k = offset;
        let mut rest = all;
        while k < end
            invariant
                offset <= k <= end <= total,
                total == rest@.len(),
                m == flows_view(rest@),
                flows_view(out@) == m.subrange(offset as int, k as int),
            decreases end - k,
        {
            let ghost prev = out@;
            let c = copy_flow(&rest[k]);
            assert(m[k as int] == rest@[k as int]@);
            out.push(c);
            assert(out@ == prev.push(c));
            assert(flows_view(out@) =~= flows_view(prev).push(m[k as int]));
            k += 1;
            assert(flows_view(out@) =~= m.subrange(offset as int, k as int));
        }
        assert(flows_view(out@) =~= page(m, limit as nat, offset as nat));
        out
    }

    /// Number of flows stored.
    pub fn len(&self) -> (r: usize)
        ensures
            r == self@.len(),
            r <= store_bound(self.max()),
    {
        proof {
            use_type_invariant(self);
        }
        self.flows.len()
    }

    pub fn is_empty(&self) -> (r: bool)
        ensures
            r == (self@.len() == 0),
    {
        self.len() == 0
    }

    /// Removes every flow.
    pub fn clear(&mut self)
        ensures
            final(self)@ == Seq::<FlowView>::empty(),
            final(self).max() == old(self).max(),
    {
        self.flows = VecDeque::new();
        assert(self@ =~= Seq::<FlowView>::empty());
    }
}

impl Default for FlowStore {
    fn default() -> (r: Self)
        ensures
            r@ == Seq::<FlowView>::empty(),
            r.max() == DEFAULT_MAX_FLOWS,
    {
        FlowStore::new()
    }
}

// ───────────────────────── Laws of the store ─────────────────────────

/// After storing a flow, looking its id up gives that flow back.
pub proof fn lemma_upsert_then_get(s: Seq<FlowView>, max: usize, f: FlowView)
    ensures
        get_spec(upsert_spec(s, max, f), f.id) == Some(f),
{
    let t = upsert_spec(s, max, f);
    match last_with_id(s, f.id) {
        Some(i) => {
            assert(is_last_with_id(s, f.id, i));
            assert(is_last_with_id(t, f.id, i));
            let k = choose|k: int| #[trigger] is_last_with_id(t, f.id, k);
            assert(k == i);
        },
        None => {
            let n = t.len() - 1;
            assert(t[n] == f);
            assert(is_last_with_id(t, f.id, n));
            let k = choose|k: int| #[trigger] is_last_with_id(t, f.id, k);
            assert(k == n);
        },
    }
}

/// Storing never takes the store past its bound: with limit `max` it holds at most
/// `max` flows (one when `max` is zero).
pub proof fn lemma_upsert_bounded(s: Seq<FlowView>, max: usize, f: FlowView)
    requires
        s.len() <= store_bound(max),
    ensures
        upsert_spec(s, max, f).len() <= store_bound(max),
{
}

/// Storing a flow whose id is present replaces a record; storing a new id adds one
/// while there is room, and otherwise evicts the oldest record.
pub proof fn lemma_upsert_len(s: Seq<FlowView>, max: usize, f: FlowView)
    ensures
        last_with_id(s, f.id) is Some ==> upsert_spec(s, max, f).len() == s.len(),
        last_with_id(s, f.id) is None && s.len() < max ==> upsert_spec(s, max, f).len() == s.len() + 1,
        last_with_id(s, f.id) is None && s.len() >= max && s.len() > 0 ==> upsert_spec(s, max, f)
            == s.drop_first().push(f),
{
    if let Some(i) = last_with_id(s, f.id) {
        assert(is_last_with_id(s, f.id, i));
    }
}

/// The recent list starts with the newest flow.
pub proof fn lemma_recent_newest_first(s: Seq<FlowView>, limit: nat)
    requires
        s.len() > 0,
        limit > 0,
    ensures
        page(s.reverse(), limit, 0)[0] == s.last(),
{
}

} // verus!
