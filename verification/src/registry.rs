//! The server's table of registered tunnels, keyed by subdomain.
use crate::session::SessionError;
use crate::text::str_equal;
use crate::types::RegisterPayload;
use vstd::prelude::*;

verus! {

/// What the dashboard shows of a tunnel.
pub struct TunnelInfo {
    pub subdomain: String,
    pub local_port: u16,
    pub connected_at: String,
}

/// A tunnel's description as a mathematical value.
pub ghost struct TunnelInfoView {
    pub subdomain: Seq<char>,
    pub local_port: u16,
    pub connected_at: Seq<char>,
}

impl View for TunnelInfo {
    type V = TunnelInfoView;

    open spec fn view(&self) -> TunnelInfoView {
        TunnelInfoView {
            subdomain: self.subdomain@,
            local_port: self.local_port,
            connected_at: self.connected_at@,
        }
    }
}

/// A registered tunnel: its description and the handle that reaches it.
pub type Entry<H> = (TunnelInfoView, H);

/// `k` is the position of the tunnel for `sub` among `es`.
pub open spec fn holds_subdomain<H>(es: Seq<Entry<H>>, sub: Seq<char>, k: int) -> bool {
    0 <= k < es.len() && es[k].0.subdomain == sub
}

/// No two tunnels share a subdomain.
pub open spec fn distinct_subdomains<H>(es: Seq<Entry<H>>) -> bool {
    forall|i: int, j: int|
        0 <= i < es.len() && 0 <= j < es.len() && i != j ==> es[i].0.subdomain
            != es[j].0.subdomain
}

/// The position of the tunnel for `sub`, if one is registered.
pub open spec fn position_of<H>(es: Seq<Entry<H>>, sub: Seq<char>) -> Option<int> {
    if exists|k: int| holds_subdomain(es, sub, k) {
        Some(choose|k: int| holds_subdomain(es, sub, k))
    } else {
        None
    }
}

/// The handle of the tunnel for `sub`, if one is registered.
pub open spec fn spec_route<H>(es: Seq<Entry<H>>, sub: Seq<char>) -> Option<H> {
    match position_of(es, sub) {
        Some(k) => Some(es[k].1),
        None => None,
    }
}

/// The table after registering `info` with `h`: a tunnel already holding
/// the subdomain is replaced in place, otherwise the new one is appended.
pub open spec fn spec_register<H>(es: Seq<Entry<H>>, info: TunnelInfoView, h: H) -> Seq<Entry<H>> {
    match position_of(es, info.subdomain) {
        Some(k) => es.update(k, (info, h)),
        None => es.push((info, h)),
    }
}

/// The table after removing the tunnel for `sub`, if there is one.
pub open spec fn spec_unregister<H>(es: Seq<Entry<H>>, sub: Seq<char>) -> Seq<Entry<H>> {
    match position_of(es, sub) {
        Some(k) => es.remove(k),
        None => es,
    }
}

/// With distinct subdomains, the tunnel for a subdomain sits at one place.
pub proof fn lemma_position_unique<H>(es: Seq<Entry<H>>, sub: Seq<char>, k: int)
    requires
        distinct_subdomains(es),
        holds_subdomain(es, sub, k),
    ensures
        position_of(es, sub) == Some(k),
{
    let c: int = choose|c: int| holds_subdomain(es, sub, c);
    assert(c == k);
}

/// A copy of a tunnel's description.
fn copy_info(info: &TunnelInfo) -> (r: TunnelInfo)
    ensures
        r@ == info@,
{
    TunnelInfo {
        subdomain: info.subdomain.clone(),
        local_port: info.local_port,
        connected_at: info.connected_at.clone(),
    }
}

/// A UTC time stamp as `to_rfc3339` writes it: at least the 25 characters of
/// `YYYY-MM-DDTHH:MM:SS+00:00`, ending in the offset `+00:00`.
pub open spec fn is_utc_rfc3339(s: Seq<char>) -> bool {
    s.len() >= 25 && s.skip(s.len() - 6) == "+00:00"@
}

/// `chrono::Utc::now().to_rfc3339()`: the current time as RFC 3339 text,
/// whose offset is always `+00:00`. Which time it shows depends on the
/// clock and is left open.
#[verifier::external_body]
fn now_rfc3339() -> (s: String)
    ensures
        is_utc_rfc3339(s@),
{
    chrono::Utc::now().to_rfc3339()
}

/// The registered tunnels and the token clients must present.
pub struct TunnelManager<H> {
    token: String,
    tunnels: Vec<(TunnelInfo, H)>,
}

impl<H> TunnelManager<H> {
    /// The token clients must present.
    pub closed spec fn token_view(&self) -> Seq<char> {
        self.token@
    }

    /// The registered tunnels, in the order they are listed.
    pub closed spec fn entries(&self) -> Seq<Entry<H>> {
        self.tunnels@.map_values(|e: (TunnelInfo, H)| (e.0@, e.1))
    }

    /// The table's invariant: no two tunnels share a subdomain.
    pub open spec fn wf(&self) -> bool {
        distinct_subdomains(self.entries())
    }

    /// An empty table guarded by `token`.
    pub fn new(token: String) -> (m: Self)
        ensures
            m.wf(),
            m.token_view() == token@,
            m.entries() == Seq::<Entry<H>>::empty(),
    {
        let m = TunnelManager { token, tunnels: Vec::new() };
        assert(m.entries() =~= Seq::<Entry<H>>::empty());
        m
    }

    /// Whether a client's token is the one this server expects.
    pub fn accepts_token(&self, token: &str) -> (r: bool)
        ensures
            r == (token@ == self.token_view()),
    {
        str_equal(token, self.token.as_str())
    }

    /// Where the tunnel for `sub` sits, if one is registered.
    fn find(&self, sub: &str) -> (r: Option<usize>)
        requires
            self.wf(),
        ensures
            r matches Some(k) ==> position_of(self.entries(), sub@) == Some(k as int),
            r is None ==> position_of(self.entries(), sub@) is None,
    {
        let mut i: usize = 0;
        while i < self.tunnels.len()
            invariant
                i <= self.tunnels@.len(),
                self.wf(),
                forall|j: int| 0 <= j < i ==> !holds_subdomain(self.entries(), sub@, j),
            decreases self.tunnels@.len() - i,
        {
            if str_equal(self.tunnels[i].0.subdomain.as_str(), sub) {
                proof {
                    lemma_position_unique(self.entries(), sub@, i as int);
                }
                return Some(i);
            }
            i = i + 1;
        }
        None
    }

    /// The handle of the tunnel registered for `subdomain`.
    pub fn route(&self, subdomain: &str) -> (r: Option<&H>)
        requires
            self.wf(),
        ensures
            match r {
                Some(h) => spec_route(self.entries(), subdomain@) == Some(*h),
                None => spec_route(self.entries(), subdomain@) is None,
            },
    {
        match self.find(subdomain) {
            Some(k) => Some(&self.tunnels[k].1),
            None => None,
        }
    }

    /// The descriptions of all registered tunnels, in table order.
    pub fn list(&self) -> (r: Vec<TunnelInfo>)
        ensures
            r@.map_values(|t: TunnelInfo| t@) == self.entries().map_values(|e: Entry<H>| e.0),
    {
        let mut r: Vec<TunnelInfo> = Vec::new();
        let mut i: usize = 0;
        while i < self.tunnels.len()
            invariant
                i <= self.tunnels@.len(),
                r@.len() == i,
                forall|j: int| 0 <= j < i ==> #[trigger] r@[j]@ == self.tunnels@[j].0@,
            decreases self.tunnels@.len() - i,
        {
            r.push(copy_info(&self.tunnels[i].0));
            i = i + 1;
        }
        assert(r@.map_values(|t: TunnelInfo| t@) =~= self.entries().map_values(|e: Entry<H>| e.0));
        r
    }

    /// Registers `handle` as the tunnel described by `info`, replacing any
    /// tunnel that held the same subdomain.
    pub fn register_at(&mut self, info: TunnelInfo, handle: H)
        requires
            old(self).wf(),
        ensures
            final(self).wf(),
            final(self).token_view() == old(self).token_view(),
            final(self).entries() == spec_register(old(self).entries(), info@, handle),
    {
        let ghost es = self.entries();
        match self.find(info.subdomain.as_str()) {
            Some(k) => {
                let ghost sub = info@.subdomain;
                self.tunnels.set(k, (info, handle));
                assert(self.entries() =~= es.update(k as int, (info@, handle)));
                assert(holds_subdomain(es, sub, k as int));
            },
            None => {
                let ghost sub = info@.subdomain;
                self.tunnels.push((info, handle));
                assert(self.entries() =~= es.push((info@, handle)));
                assert forall|j: int| 0 <= j < es.len() implies es[j].0.subdomain != sub by {
                    if es[j].0.subdomain == sub {
                        assert(holds_subdomain(es, sub, j));
                    }
                }
            },
        }
    }

    /// Registers `handle` for `subdomain`, stamped with the current time.
    pub fn register(&mut self, subdomain: String, local_port: u16, handle: H)
        requires
            old(self).wf(),
        ensures
            final(self).wf(),
            final(self).token_view() == old(self).token_view(),
            exists|connected_at: Seq<char>|
                is_utc_rfc3339(connected_at) && final(self).entries() == spec_register(
                    old(self).entries(),
                    TunnelInfoView { subdomain: subdomain@, local_port, connected_at },
                    handle,
                ),
    {
        let connected_at = now_rfc3339();
        let info = TunnelInfo { subdomain, local_port, connected_at };
        self.register_at(info, handle);
    }

    /// Lets a client in: with the expected token, its tunnel is registered
    /// under the subdomain it asked for; with any other token it is turned
    /// away with `InvalidToken` and the table is left as it was.
    pub fn accept_client(&mut self, reg: &RegisterPayload, handle: H) -> (r: Result<(), SessionError>)
        requires
            old(self).wf(),
        ensures
            final(self).wf(),
            final(self).token_view() == old(self).token_view(),
            reg.token@ != old(self).token_view() ==> {
                &&& r == Err::<(), SessionError>(SessionError::InvalidToken)
                &&& final(self).entries() == old(self).entries()
            },
            reg.token@ == old(self).token_view() ==> {
                &&& r is Ok
                &&& exists|connected_at: Seq<char>|
                    is_utc_rfc3339(connected_at) && final(self).entries() == spec_register(
                        old(self).entries(),
                        TunnelInfoView {
                            subdomain: reg.subdomain@,
                            local_port: reg.local_port,
                            connected_at,
                        },
                        handle,
                    )
            },
    {
        if !self.accepts_token(reg.token.as_str()) {
            return Err(SessionError::InvalidToken);
        }
        self.register(reg.subdomain.clone(), reg.local_port, handle);
        Ok(())
    }

    /// Removes the tunnel registered for `subdomain`, if any.
    pub fn unregister(&mut self, subdomain: &str)
        requires
            old(self).wf(),
        ensures
            final(self).wf(),
            final(self).token_view() == old(self).token_view(),
            final(self).entries() == spec_unregister(old(self).entries(), subdomain@),
    {
        let ghost es = self.entries();
        match self.find(subdomain) {
            Some(k) => {
                self.tunnels.remove(k);
                assert(self.entries() =~= es.remove(k as int));
            },
            None => {},
        }
    }
}

} // verus!

verus! {

/// A subdomain that no tunnel holds has no position.
proof fn lemma_position_none<H>(es: Seq<Entry<H>>, sub: Seq<char>)
    requires
        forall|j: int| 0 <= j < es.len() ==> es[j].0.subdomain != sub,
    ensures
        position_of(es, sub) is None,
{
}

/// After a tunnel registers, its subdomain routes to its handle, every other
/// subdomain routes as before, and subdomains stay distinct.
pub proof fn lemma_route_after_register<H>(es: Seq<Entry<H>>, info: TunnelInfoView, h: H)
    requires
        distinct_subdomains(es),
    ensures
        distinct_subdomains(spec_register(es, info, h)),
        spec_route(spec_register(es, info, h), info.subdomain) == Some(h),
        forall|sub: Seq<char>|
            sub != info.subdomain ==> #[trigger] spec_route(spec_register(es, info, h), sub)
                == spec_route(es, sub),
{
    let n = spec_register(es, info, h);
    match position_of(es, info.subdomain) {
        Some(k) => {
            assert(holds_subdomain(es, info.subdomain, k));
            assert(distinct_subdomains(n));
            lemma_position_unique(n, info.subdomain, k);
            assert forall|sub: Seq<char>| sub != info.subdomain implies #[trigger] spec_route(n, sub)
                == spec_route(es, sub) by {
                if let Some(j) = position_of(es, sub) {
                    assert(holds_subdomain(es, sub, j));
                    assert(j != k);
                    lemma_position_unique(n, sub, j);
                } else {
                    if let Some(j) = position_of(n, sub) {
                        assert(holds_subdomain(n, sub, j));
                        assert(holds_subdomain(es, sub, j));
                    }
                }
            }
        },
        None => {
            assert forall|j: int| 0 <= j < es.len() implies es[j].0.subdomain != info.subdomain by {
                if es[j].0.subdomain == info.subdomain {
                    assert(holds_subdomain(es, info.subdomain, j));
                }
            }
            assert(distinct_subdomains(n));
            lemma_position_unique(n, info.subdomain, es.len() as int);
            assert forall|sub: Seq<char>| sub != info.subdomain implies #[trigger] spec_route(n, sub)
                == spec_route(es, sub) by {
                if let Some(j) = position_of(es, sub) {
                    assert(holds_subdomain(es, sub, j));
                    lemma_position_unique(n, sub, j);
                } else {
                    if let Some(j) = position_of(n, sub) {
                        assert(holds_subdomain(n, sub, j));
                        assert(holds_subdomain(es, sub, j));
                    }
                }
            }
        },
    }
}

/// After a tunnel unregisters, its subdomain routes nowhere, every other
/// subdomain routes as before, and subdomains stay distinct.
pub proof fn lemma_route_after_unregister<H>(es: Seq<Entry<H>>, sub: Seq<char>)
    requires
        distinct_subdomains(es),
    ensures
        distinct_subdomains(spec_unregister(es, sub)),
        spec_route(spec_unregister(es, sub), sub) is None,
        forall|other: Seq<char>|
            other != sub ==> #[trigger] spec_route(spec_unregister(es, sub), other) == spec_route(
                es,
                other,
            ),
{
    let n = spec_unregister(es, sub);
    match position_of(es, sub) {
        Some(k) => {
            assert(holds_subdomain(es, sub, k));
            assert(forall|j: int| 0 <= j < n.len() ==> #[trigger] n[j] == es[if j < k { j } else { j + 1 }]);
            assert(distinct_subdomains(n));
            assert forall|j: int| 0 <= j < n.len() implies n[j].0.subdomain != sub by {
                let jj: int = if j < k { j } else { j + 1 };
                assert(n[j] == es[jj]);
            }
            lemma_position_none(n, sub);
            assert forall|other: Seq<char>| other != sub implies #[trigger] spec_route(n, other)
                == spec_route(es, other) by {
                if let Some(j) = position_of(es, other) {
                    assert(holds_subdomain(es, other, j));
                    let jn: int = if j < k { j } else { j - 1 };
                    assert(n[jn] == es[j]);
                    lemma_position_unique(n, other, jn);
                } else {
                    if let Some(j) = position_of(n, other) {
                        assert(holds_subdomain(n, other, j));
                        let jj: int = if j < k { j } else { j + 1 };
                        assert(n[j] == es[jj]);
                        assert(holds_subdomain(es, other, jj));
                    }
                }
            }
        },
        None => {
            assert forall|j: int| 0 <= j < es.len() implies es[j].0.subdomain != sub by {
                if es[j].0.subdomain == sub {
                    assert(holds_subdomain(es, sub, j));
                }
            }
        },
    }
}

/// One change to the table of tunnels.
pub ghost enum TableChange<H> {
    /// `register_at` (or `register`, `accept_client`) with this description
    /// and handle.
    Register(TunnelInfoView, H),
    /// `unregister` of this subdomain.
    Unregister(Seq<char>),
}

/// The table after one change.
pub open spec fn apply_change<H>(es: Seq<Entry<H>>, c: TableChange<H>) -> Seq<Entry<H>> {
    match c {
        TableChange::Register(info, h) => spec_register(es, info, h),
        TableChange::Unregister(sub) => spec_unregister(es, sub),
    }
}

/// The table after the changes `cs`, in order.
pub open spec fn apply_changes<H>(es: Seq<Entry<H>>, cs: Seq<TableChange<H>>) -> Seq<Entry<H>>
    decreases cs.len(),
{
    if cs.len() == 0 {
        es
    } else {
        apply_change(apply_changes(es, cs.drop_last()), cs.last())
    }
}

/// What the last change naming `sub` leaves it routed to: the handle of a
/// registration, nothing after a removal; `None` when no change names it.
pub open spec fn last_route<H>(cs: Seq<TableChange<H>>, sub: Seq<char>) -> Option<Option<H>>
    decreases cs.len(),
{
    if cs.len() == 0 {
        None
    } else {
        match cs.last() {
            TableChange::Register(info, h) => if info.subdomain == sub {
                Some(Some(h))
            } else {
                last_route(cs.drop_last(), sub)
            },
            TableChange::Unregister(s) => if s == sub {
                Some(None)
            } else {
                last_route(cs.drop_last(), sub)
            },
        }
    }
}

/// After any sequence of registrations and removals, a subdomain routes to
/// the handle of the last change naming it if that was a registration, and
/// nowhere if it was a removal; a subdomain no change names routes as before
/// (nowhere, from a new manager). Subdomains stay distinct throughout.
pub proof fn lemma_route_after_changes<H>(es: Seq<Entry<H>>, cs: Seq<TableChange<H>>, sub: Seq<char>)
    requires
        distinct_subdomains(es),
    ensures
        distinct_subdomains(apply_changes(es, cs)),
        spec_route(apply_changes(es, cs), sub) == match last_route(cs, sub) {
            Some(r) => r,
            None => spec_route(es, sub),
        },
    decreases cs.len(),
{
    if cs.len() > 0 {
        let before = apply_changes(es, cs.drop_last());
        lemma_route_after_changes(es, cs.drop_last(), sub);
        match cs.last() {
            TableChange::Register(info, h) => {
                lemma_route_after_register(before, info, h);
                if info.subdomain != sub {
                    assert(spec_route(spec_register(before, info, h), sub) == spec_route(before, sub));
                }
            },
            TableChange::Unregister(s) => {
                lemma_route_after_unregister(before, s);
                if s != sub {
                    assert(spec_route(spec_unregister(before, s), sub) == spec_route(before, sub));
                }
            },
        }
    }
}

} // verus!
