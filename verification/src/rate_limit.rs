//! Per-address rate limiting of QR login starts over a fixed window. Times are nanoseconds on a
//! monotonic clock.

use vstd::prelude::*;
use crate::net::IpLiteral;

verus! {

/// Length of one rate window: sixty seconds.
pub const RATE_WINDOW_NANOS: u64 = 60_000_000_000;

/// The current window of one address: when it started and how many starts it allowed.
#[derive(Debug, Clone, Copy, PartialEq, Eq, Structural)]
pub struct RateWindow {
    pub started_at: u64,
    pub count: usize,
}

/// Time from `since` to `now`, zero when `now` is earlier.
pub open spec fn elapsed(now: u64, since: u64) -> int {
    if now >= since {
        now - since
    } else {
        0
    }
}

/// The window after one more start at `now`, and whether the start is allowed: a window that
/// has run its length starts over, a full window refuses and stays as it was.
pub open spec fn spec_update_window(w: RateWindow, now: u64, limit: usize, length: u64) -> (RateWindow, bool) {
    if elapsed(now, w.started_at) >= length {
        (RateWindow { started_at: now, count: 1 }, true)
    } else if w.count >= limit {
        (w, false)
    } else {
        (RateWindow { started_at: w.started_at, count: (w.count + 1) as usize }, true)
    }
}

/// What one start from `address` at `now` does to the windows `m`: a first start opens a window
/// and is allowed.
pub open spec fn spec_allow(m: Map<IpLiteral, RateWindow>, address: IpLiteral, now: u64, limit: usize, length: u64) -> (Map<IpLiteral, RateWindow>, bool) {
    if !m.contains_key(address) {
        (m.insert(address, RateWindow { started_at: now, count: 1 }), true)
    } else {
        let (w, ok) = spec_update_window(m[address], now, limit, length);
        (m.insert(address, w), ok)
    }
}

/// Applies one start at `now` to `window`.
pub fn update_window(window: &mut RateWindow, now: u64, limit: usize, length: u64) -> (r: bool)
    ensures
        (*final(window), r) == spec_update_window(*old(window), now, limit, length),
{
    let since = if now >= window.started_at { now - window.started_at } else { 0 };
    if since >= length {
        window.started_at = now;
        window.count = 1;
        return true;
    }
    if window.count >= limit {
        return false;
    }
    window.count = window.count + 1;
    true
}

/// An address as a key: its family (4 or 6) and its value.
pub type AddressKey = (u8, u128);

/// The key under which the window of `address` is stored: its family and its value.
pub open spec fn spec_address_key(address: IpLiteral) -> AddressKey {
    match address {
        IpLiteral::V4(v) => (4u8, v as u128),
        IpLiteral::V6(v) => (6u8, v),
    }
}

/// The address stored under `key`.
pub open spec fn spec_key_address(key: AddressKey) -> IpLiteral {
    if key.0 == 4 {
        IpLiteral::V4(key.1 as u32)
    } else {
        IpLiteral::V6(key.1)
    }
}

/// A key that some address is stored under.
pub open spec fn is_address_key(key: AddressKey) -> bool {
    (key.0 == 4 && key.1 <= u32::MAX) || key.0 == 6
}

/// The key of `address`.
fn address_key(address: IpLiteral) -> (r: AddressKey)
    ensures
        r == spec_address_key(address),
{
    match address {
        IpLiteral::V4(v) => (4u8, v as u128),
        IpLiteral::V6(v) => (6u8, v),
    }
}

#[verifier::external_type_specification]
#[verifier::external_body]
#[verifier::reject_recursive_types(K)]
#[verifier::reject_recursive_types(V)]
#[verifier::reject_recursive_types(S)]
pub struct ExDashMap<K, V, S>(dashmap::DashMap<K, V, S>);

/// The windows held by a concurrent map of windows, by address key.
pub uninterp spec fn window_entries(m: dashmap::DashMap<AddressKey, RateWindow>) -> Map<AddressKey, RateWindow>;

/// `DashMap::new`: a map that holds nothing.
#[verifier::external_body]
fn windows_new() -> (r: dashmap::DashMap<AddressKey, RateWindow>)
    ensures
        window_entries(r).dom() == Set::<AddressKey>::empty(),
{
    dashmap::DashMap::new()
}

/// `DashMap::get`, with the window copied out: the window stored under `key`, if there is one.
#[verifier::external_body]
fn windows_get(m: &dashmap::DashMap<AddressKey, RateWindow>, key: AddressKey) -> (r: Option<RateWindow>)
    ensures
        r == if window_entries(*m).contains_key(key) {
            Some(window_entries(*m)[key])
        } else {
            None
        },
{
    m.get(&key).map(|entry| *entry.value())
}

/// `DashMap::insert`: `key` now holds `w`, every other key what it held.
#[verifier::external_body]
fn windows_insert(m: &mut dashmap::DashMap<AddressKey, RateWindow>, key: AddressKey, w: RateWindow)
    ensures
        window_entries(*final(m)) == window_entries(*old(m)).insert(key, w),
{
    m.insert(key, w);
}

/// `DashMap::retain`, keeping the windows that have not run `length` at `now`.
#[verifier::external_body]
fn windows_retain_live(m: &mut dashmap::DashMap<AddressKey, RateWindow>, now: u64, length: u64)
    ensures
        window_entries(*final(m)) == window_entries(*old(m)).restrict(
            window_entries(*old(m)).dom().filter(|k: AddressKey| elapsed(now, window_entries(*old(m))[k].started_at) < length),
        ),
{
    m.retain(|_, w| window_is_live(w, now, length));
}

/// `DashMap::len`: how many windows the map holds.
#[verifier::external_body]
fn windows_len(m: &dashmap::DashMap<AddressKey, RateWindow>) -> (r: usize)
    ensures
        r == window_entries(*m).len(),
{
    m.len()
}

/// Whether `w` has not yet run `length` at `now`.
pub fn window_is_live(w: &RateWindow, now: u64, length: u64) -> (r: bool)
    ensures
        r == (elapsed(now, w.started_at) < length),
{
    let since = if now >= w.started_at { now - w.started_at } else { 0 };
    since < length
}

/// Login starts per address, at most `limit` per window (a first start is always allowed).
pub struct LoginRateLimiter {
    entries: dashmap::DashMap<AddressKey, RateWindow>,
    limit: usize,
    window: u64,
}

impl View for LoginRateLimiter {
    type V = Map<IpLiteral, RateWindow>;

    closed spec fn view(&self) -> Map<IpLiteral, RateWindow> {
        Map::new(
            |a: IpLiteral| window_entries(self.entries).contains_key(spec_address_key(a)),
            |a: IpLiteral| window_entries(self.entries)[spec_address_key(a)],
        )
    }
}

impl LoginRateLimiter {
    pub closed spec fn spec_limit(&self) -> usize {
        self.limit
    }

    pub closed spec fn spec_window(&self) -> u64 {
        self.window
    }

    /// The map holds finitely many windows, every stored key is an address key, and no window has counted more starts than the limit
    /// allows.
    pub closed spec fn wf(&self) -> bool {
        &&& window_entries(self.entries).dom().finite()
        &&& forall|k: AddressKey| #[trigger] window_entries(self.entries).contains_key(k) ==> is_address_key(k)
        &&& forall|k: AddressKey| #[trigger] window_entries(self.entries).contains_key(k) ==> 1 <= window_entries(self.entries)[k].count
            && (window_entries(self.entries)[k].count <= self.limit || window_entries(self.entries)[k].count == 1)
    }

    proof fn lemma_keys(&self)
        ensures
            forall|a: IpLiteral| #[trigger] spec_key_address(spec_address_key(a)) == a,
            forall|k: AddressKey| is_address_key(k) ==> #[trigger] spec_address_key(spec_key_address(k)) == k,
    {
        assert forall|a: IpLiteral| #[trigger] spec_key_address(spec_address_key(a)) == a by {
            match a {
                IpLiteral::V4(v) => {
                    assert((v as u128) as u32 == v);
                },
                IpLiteral::V6(v) => {},
            }
        }
        assert forall|k: AddressKey| is_address_key(k) implies #[trigger] spec_address_key(spec_key_address(k)) == k by {
            if k.0 == 4 {
                assert((k.1 as u32) as u128 == k.1);
            }
        }
    }

    /// A limiter allowing `limit` starts per minute.
    pub fn per_minute(limit: usize) -> (r: Self)
        ensures
            r.wf(),
            r@ == Map::<IpLiteral, RateWindow>::empty(),
            r.spec_limit() == limit,
            r.spec_window() == RATE_WINDOW_NANOS,
    {
        let r = LoginRateLimiter { entries: windows_new(), limit, window: RATE_WINDOW_NANOS };
        assert(r@ =~= Map::<IpLiteral, RateWindow>::empty());
        r
    }

    /// Whether a login start from `address` at `now` is allowed; the start is counted when it is.
    pub fn allow(&mut self, address: IpLiteral, now: u64) -> (r: bool)
        requires
            old(self).wf(),
        ensures
            final(self).wf(),
            (final(self)@, r) == spec_allow(old(self)@, address, now, old(self).spec_limit(), old(self).spec_window()),
            final(self).spec_limit() == old(self).spec_limit(),
            final(self).spec_window() == old(self).spec_window(),
    {
        proof {
            self.lemma_keys();
        }
        let key = address_key(address);
        let (w, ok) = match windows_get(&self.entries, key) {
            None => (RateWindow { started_at: now, count: 1 }, true),
            Some(current) => {
                let mut w = current;
                let ok = update_window(&mut w, now, self.limit, self.window);
                proof {
                    lemma_window_bounds(current, now, self.limit, self.window);
                }
                (w, ok)
            },
        };
        windows_insert(&mut self.entries, key, w);
        proof {
            let (m, b) = spec_allow(old(self)@, address, now, old(self).spec_limit(), old(self).spec_window());
            assert forall|a: IpLiteral| #[trigger] self@.contains_key(a) == m.contains_key(a) by {
                if a != address {
                    assert(spec_address_key(a) != key) by {
                        assert(spec_key_address(spec_address_key(a)) == a);
                    }
                }
            }
            assert forall|a: IpLiteral| self@.contains_key(a) implies #[trigger] self@[a] == m[a] by {
                if a != address {
                    assert(spec_address_key(a) != key) by {
                        assert(spec_key_address(spec_address_key(a)) == a);
                    }
                }
            }
            assert(self@ =~= m);
        }
        ok
    }

    /// Forgets every window that has run its length at `now`; gives how many were forgotten.
    pub fn cleanup(&mut self, now: u64) -> (r: usize)
        requires
            old(self).wf(),
        ensures
            final(self).wf(),
            forall|a: IpLiteral| #[trigger] final(self)@.contains_key(a) <==> old(self)@.contains_key(a)
                && elapsed(now, old(self)@[a].started_at) < old(self).spec_window(),
            forall|a: IpLiteral| final(self)@.contains_key(a) ==> #[trigger] final(self)@[a] == old(self)@[a],
            final(self).spec_limit() == old(self).spec_limit(),
            final(self).spec_window() == old(self).spec_window(),
            old(self)@.dom().finite(),
            r == old(self)@.len() - final(self)@.len(),
    {
        proof {
            self.lemma_keys();
        }
        let before = windows_len(&self.entries);
        windows_retain_live(&mut self.entries, now, self.window);
        let after = windows_len(&self.entries);
        proof {
            let old_keys = window_entries(old(self).entries).dom();
            let new_keys = window_entries(self.entries).dom();
            assert(new_keys.subset_of(old_keys));
            vstd::set_lib::lemma_len_subset(new_keys, old_keys);
            lemma_view_len(old(self).entries);
            lemma_view_len(self.entries);
        }
        before - after
    }
}

/// The addresses of a well-formed map of windows are as many as its keys.
proof fn lemma_view_len(entries: dashmap::DashMap<AddressKey, RateWindow>)
    requires
        window_entries(entries).dom().finite(),
        forall|k: AddressKey| #[trigger] window_entries(entries).contains_key(k) ==> is_address_key(k),
    ensures
        Set::new(|a: IpLiteral| window_entries(entries).contains_key(spec_address_key(a))).finite(),
        Set::new(|a: IpLiteral| window_entries(entries).contains_key(spec_address_key(a))).len() == window_entries(entries).len(),
{
    let keys = window_entries(entries).dom();
    let addresses = Set::new(|a: IpLiteral| window_entries(entries).contains_key(spec_address_key(a)));
    assert forall|k: AddressKey| is_address_key(k) implies #[trigger] spec_address_key(spec_key_address(k)) == k by {
        if k.0 == 4 {
            assert((k.1 as u32) as u128 == k.1);
        }
    }
    assert forall|a: IpLiteral| #[trigger] spec_key_address(spec_address_key(a)) == a by {
        match a {
            IpLiteral::V4(v) => {
                assert((v as u128) as u32 == v);
            },
            IpLiteral::V6(v) => {},
        }
    }
    assert(addresses =~= keys.map(|k: AddressKey| spec_key_address(k)));
    assert(vstd::relations::injective_on(|k: AddressKey| spec_key_address(k), keys)) by {
        assert forall|x: AddressKey, y: AddressKey| keys.contains(x) && keys.contains(y)
            && #[trigger] spec_key_address(x) == #[trigger] spec_key_address(y) implies x == y by {
            assert(spec_address_key(spec_key_address(x)) == x);
            assert(spec_address_key(spec_key_address(y)) == y);
        }
    }
    vstd::set_lib::lemma_map_size(keys, addresses, |k: AddressKey| spec_key_address(k));
}

/// Law: within one window an address gets at most `limit` starts allowed (one when the limit is
/// zero), a refused start changes nothing, and once the window has run its length the next
/// start is allowed and opens a new window.
pub proof fn lemma_window_bounds(w: RateWindow, now: u64, limit: usize, length: u64)
    requires
        1 <= w.count,
        w.count <= limit || w.count == 1,
    ensures
        ({
            let (next, ok) = spec_update_window(w, now, limit, length);
            &&& 1 <= next.count
            &&& next.count <= limit || next.count == 1
            &&& !ok ==> next == w
            &&& elapsed(now, w.started_at) >= length ==> ok && next == RateWindow { started_at: now, count: 1 }
            &&& elapsed(now, w.started_at) < length && ok ==> next.count == w.count + 1 && next.started_at == w.started_at
        }),
{
}

/// The window after starts at `times`, in order, against window `w`, and how many of them were
/// allowed.
pub open spec fn spec_run(w: RateWindow, times: Seq<u64>, limit: usize, length: u64) -> (RateWindow, nat)
    decreases times.len(),
{
    if times.len() == 0 {
        (w, 0)
    } else {
        let (next, ok) = spec_update_window(w, times[0], limit, length);
        let (last, n) = spec_run(next, times.drop_first(), limit, length);
        (last, if ok { n + 1 } else { n })
    }
}

/// Law: starts that all fall before the current window has run its length are allowed only
/// until the window holds `limit` starts: the window keeps its start, counts each allowed start,
/// and never counts more than `limit`.
pub proof fn lemma_window_limit(w: RateWindow, times: Seq<u64>, limit: usize, length: u64)
    requires
        1 <= w.count <= limit,
        forall|i: int| 0 <= i < times.len() ==> elapsed(#[trigger] times[i], w.started_at) < length,
    ensures
        spec_run(w, times, limit, length).0.started_at == w.started_at,
        spec_run(w, times, limit, length).0.count == w.count + spec_run(w, times, limit, length).1,
        w.count + spec_run(w, times, limit, length).1 <= limit,
    decreases times.len(),
{
    if times.len() > 0 {
        let next = spec_update_window(w, times[0], limit, length).0;
        assert(elapsed(times[0], w.started_at) < length);
        let rest = times.drop_first();
        assert forall|i: int| 0 <= i < rest.len() implies elapsed(#[trigger] rest[i], next.started_at) < length by {
            assert(rest[i] == times[i + 1]);
        }
        lemma_window_limit(next, rest, limit, length);
    }
}

/// Law: a start from one address leaves every other address's window as it was.
pub proof fn lemma_addresses_independent(
    m: Map<IpLiteral, RateWindow>,
    address: IpLiteral,
    other: IpLiteral,
    now: u64,
    limit: usize,
    length: u64,
)
    requires
        other != address,
    ensures
        spec_allow(m, address, now, limit, length).0.contains_key(other) == m.contains_key(other),
        m.contains_key(other) ==> spec_allow(m, address, now, limit, length).0[other] == m[other],
{
}

} // verus!
