use vstd::prelude::*;
use crate::config::{is_blocked, DeviceRulesConfig};
use crate::device::{ConnectionStatus, DeviceKey, UsbDeviceChange, UsbDeviceInfo};

verus! {

/// Some snapshot of `s` has key `k`.
pub open spec fn has_key(s: Seq<UsbDeviceInfo>, k: DeviceKey) -> bool {
    exists|i: int| 0 <= i < s.len() && #[trigger] s[i].key() == k
}

/// No two snapshots of `s` share a key: `s` is a map keyed by identity.
pub open spec fn distinct_keys(s: Seq<UsbDeviceInfo>) -> bool {
    forall|i: int, j: int| 0 <= i < s.len() && 0 <= j < s.len() && i != j ==> s[i].key() != s[j].key()
}

/// Position of a snapshot with key `k` (meaningful when `has_key(s, k)`).
pub open spec fn key_index(s: Seq<UsbDeviceInfo>, k: DeviceKey) -> int {
    choose|i: int| 0 <= i < s.len() && #[trigger] s[i].key() == k
}

/// The snapshot stored under `k`, if any.
pub open spec fn find(s: Seq<UsbDeviceInfo>, k: DeviceKey) -> Option<UsbDeviceInfo> {
    if has_key(s, k) {
        Some(s[key_index(s, k)])
    } else {
        None
    }
}

/// Inserting `d` into the keyed map `m`: it replaces the entry of its key.
pub open spec fn put(m: Seq<UsbDeviceInfo>, d: UsbDeviceInfo) -> Seq<UsbDeviceInfo> {
    if has_key(m, d.key()) {
        m.update(key_index(m, d.key()), d)
    } else {
        m.push(d)
    }
}

/// The current snapshot as a map keyed by identity (a later snapshot of the
/// same key replaces an earlier one).
pub open spec fn keyed(s: Seq<UsbDeviceInfo>) -> Seq<UsbDeviceInfo>
    decreases s.len(),
{
    if s.len() == 0 {
        Seq::empty()
    } else {
        put(keyed(s.drop_last()), s.last())
    }
}

/// Disconnect changes: each previous device whose key is gone from `cur`
/// and that was not already gone, stamped `Disconnected` at `now`, in the
/// order of `prev`.
pub open spec fn disconnects(prev: Seq<UsbDeviceInfo>, cur: Seq<UsbDeviceInfo>, now: i64) -> Seq<
    UsbDeviceChange,
>
    decreases prev.len(),
{
    if prev.len() == 0 {
        Seq::empty()
    } else {
        let rest = disconnects(prev.drop_last(), cur, now);
        let p = prev.last();
        if has_key(cur, p.key()) || p.connection_status == ConnectionStatus::Disconnected {
            rest
        } else {
            rest.push(
                UsbDeviceChange::Disconnected(p.restamped(ConnectionStatus::Disconnected, now)),
            )
        }
    }
}

/// The entry kept for a device present now: never tagged Disconnected.
pub open spec fn as_present(d: UsbDeviceInfo) -> UsbDeviceInfo {
    if d.connection_status == ConnectionStatus::Disconnected {
        d.with_status(ConnectionStatus::Connected)
    } else {
        d
    }
}

/// The entry kept for a previous device that is gone: tagged Disconnected,
/// stamped `now` when it leaves and left as it is afterwards.
pub open spec fn as_departed(p: UsbDeviceInfo, now: i64) -> UsbDeviceInfo {
    if p.connection_status == ConnectionStatus::Disconnected {
        p
    } else {
        p.restamped(ConnectionStatus::Disconnected, now)
    }
}

/// The present devices, as kept in the previous map.
pub open spec fn live(cur: Seq<UsbDeviceInfo>) -> Seq<UsbDeviceInfo> {
    cur.map_values(|d: UsbDeviceInfo| as_present(d))
}

/// The previous devices whose key is gone from `cur`, as kept in the
/// previous map, in the order of `prev`.
pub open spec fn gone(prev: Seq<UsbDeviceInfo>, cur: Seq<UsbDeviceInfo>, now: i64) -> Seq<UsbDeviceInfo>
    decreases prev.len(),
{
    if prev.len() == 0 {
        Seq::empty()
    } else {
        let rest = gone(prev.drop_last(), cur, now);
        if has_key(cur, prev.last().key()) {
            rest
        } else {
            rest.push(as_departed(prev.last(), now))
        }
    }
}

/// The previous map after a pass over the keyed map `cur`: the present
/// devices, then the departed ones, kept so that a return is a reconnection.
pub open spec fn next_prev(prev: Seq<UsbDeviceInfo>, cur: Seq<UsbDeviceInfo>, now: i64) -> Seq<
    UsbDeviceInfo,
> {
    live(cur) + gone(prev, cur, now)
}

/// `prev` holds key `k` under a status other than Disconnected.
pub open spec fn present_live(prev: Seq<UsbDeviceInfo>, k: DeviceKey) -> bool {
    find(prev, k) matches Some(p) && p.connection_status != ConnectionStatus::Disconnected
}

/// The change one current device causes, if any.
pub open spec fn arrival(prev: Seq<UsbDeviceInfo>, d: UsbDeviceInfo, rules: DeviceRulesConfig) -> Option<
    UsbDeviceChange,
> {
    match find(prev, d.key()) {
        None => if is_blocked(rules, d) {
            Some(UsbDeviceChange::Blocked(d.with_status(ConnectionStatus::Blocked)))
        } else {
            Some(UsbDeviceChange::Connected(d.with_status(ConnectionStatus::Connected)))
        },
        Some(p) => if p.connection_status == ConnectionStatus::Disconnected {
            Some(UsbDeviceChange::Reconnected(d.with_status(ConnectionStatus::Reconnected)))
        } else {
            None
        },
    }
}

/// Arrival changes, in the order of `cur`.
pub open spec fn arrivals(
    prev: Seq<UsbDeviceInfo>,
    cur: Seq<UsbDeviceInfo>,
    rules: DeviceRulesConfig,
) -> Seq<UsbDeviceChange>
    decreases cur.len(),
{
    if cur.len() == 0 {
        Seq::empty()
    } else {
        let rest = arrivals(prev, cur.drop_last(), rules);
        match arrival(prev, cur.last(), rules) {
            Some(c) => rest.push(c),
            None => rest,
        }
    }
}

/// The devices of `cur` that are new to `prev` and so go through the policy.
pub open spec fn newcomers(prev: Seq<UsbDeviceInfo>, cur: Seq<UsbDeviceInfo>) -> Seq<UsbDeviceInfo>
    decreases cur.len(),
{
    if cur.len() == 0 {
        Seq::empty()
    } else {
        let rest = newcomers(prev, cur.drop_last());
        if has_key(prev, cur.last().key()) {
            rest
        } else {
            rest.push(cur.last())
        }
    }
}

/// One diff pass from the previous keyed map to a current snapshot:
/// disconnects first, then arrivals.
pub open spec fn diff_changes(
    prev: Seq<UsbDeviceInfo>,
    current: Seq<UsbDeviceInfo>,
    rules: DeviceRulesConfig,
    now: i64,
) -> Seq<UsbDeviceChange> {
    let cur = keyed(current);
    disconnects(prev, cur, now) + arrivals(prev, cur, rules)
}

pub proof fn lemma_find_at(s: Seq<UsbDeviceInfo>, i: int)
    requires
        distinct_keys(s),
        0 <= i < s.len(),
    ensures
        has_key(s, s[i].key()),
        key_index(s, s[i].key()) == i,
        find(s, s[i].key()) == Some(s[i]),
{
    assert(s[i].key() == s[i].key());
}

proof fn lemma_put(m: Seq<UsbDeviceInfo>, d: UsbDeviceInfo)
    requires
        distinct_keys(m),
    ensures
        distinct_keys(put(m, d)),
        forall|k: DeviceKey| has_key(put(m, d), k) <==> (has_key(m, k) || k == d.key()),
        forall|i: int|
            0 <= i < put(m, d).len() ==> #[trigger] put(m, d)[i] == d || (
            put(m, d)[i].key() != d.key() && has_key(m, put(m, d)[i].key()) && m[key_index(m, put(m, d)[i].key())] == put(m, d)[i]),
{
    let r = put(m, d);
    if has_key(m, d.key()) {
        let j = key_index(m, d.key());
        assert forall|k: DeviceKey| has_key(r, k) <==> (has_key(m, k) || k == d.key()) by {
            if has_key(m, k) {
                let i = key_index(m, k);
                if i != j {
                    assert(r[i].key() == k);
                } else {
                    assert(r[j].key() == k);
                }
            }
            if k == d.key() {
                assert(r[j].key() == k);
            }
            if has_key(r, k) {
                let i = choose|i: int| 0 <= i < r.len() && #[trigger] r[i].key() == k;
                if i != j {
                    assert(m[i].key() == k);
                }
            }
        }
        assert forall|i: int| 0 <= i < r.len() implies #[trigger] r[i] == d || (r[i].key() != d.key()
            && has_key(m, r[i].key()) && m[key_index(m, r[i].key())] == r[i]) by {
            if i != j {
                lemma_find_at(m, i);
            }
        }
    } else {
        assert forall|k: DeviceKey| has_key(r, k) <==> (has_key(m, k) || k == d.key()) by {
            if has_key(m, k) {
                let i = key_index(m, k);
                assert(r[i].key() == k);
            }
            if k == d.key() {
                assert(r[m.len() as int].key() == k);
            }
            if has_key(r, k) {
                let i = choose|i: int| 0 <= i < r.len() && #[trigger] r[i].key() == k;
                if i < m.len() {
                    assert(m[i].key() == k);
                }
            }
        }
        assert forall|i: int| 0 <= i < r.len() implies #[trigger] r[i] == d || (r[i].key() != d.key()
            && has_key(m, r[i].key()) && m[key_index(m, r[i].key())] == r[i]) by {
            if i < m.len() {
                lemma_find_at(m, i);
                if m[i].key() == d.key() {
                    assert(has_key(m, d.key()));
                }
            }
        }
    }
}

/// The keyed map has distinct keys, the keys of the snapshot, and each entry
/// is a snapshot of it.
pub proof fn lemma_keyed(s: Seq<UsbDeviceInfo>)
    ensures
        distinct_keys(keyed(s)),
        forall|k: DeviceKey| has_key(keyed(s), k) <==> has_key(s, k),
        forall|i: int|
            0 <= i < keyed(s).len() ==> exists|j: int| 0 <= j < s.len() && s[j] == #[trigger] keyed(s)[i],
    decreases s.len(),
{
    if s.len() > 0 {
        let t = s.drop_last();
        lemma_keyed(t);
        lemma_put(keyed(t), s.last());
        assert forall|k: DeviceKey| has_key(keyed(s), k) <==> has_key(s, k) by {
            if has_key(t, k) {
                let i = choose|i: int| 0 <= i < t.len() && #[trigger] t[i].key() == k;
                assert(s[i].key() == k);
            }
            if k == s.last().key() {
                assert(s[s.len() - 1].key() == k);
            }
            if has_key(s, k) {
                let i = choose|i: int| 0 <= i < s.len() && #[trigger] s[i].key() == k;
                if i < t.len() {
                    assert(t[i].key() == k);
                }
            }
        }
        assert forall|i: int| 0 <= i < keyed(s).len() implies exists|j: int|
            0 <= j < s.len() && s[j] == #[trigger] keyed(s)[i] by {
            let r = keyed(s);
            if r[i] == s.last() {
                assert(s[s.len() - 1] == r[i]);
            } else {
                let m = keyed(t);
                let x = key_index(m, r[i].key());
                assert(m[x] == r[i]);
                let j = choose|j: int| 0 <= j < t.len() && t[j] == #[trigger] m[x];
                assert(s[j] == r[i]);
            }
        }
    } else {
        assert(keyed(s) =~= Seq::<UsbDeviceInfo>::empty());
    }
}

/// A snapshot that already has distinct keys is its own keyed map.
pub proof fn lemma_keyed_distinct(s: Seq<UsbDeviceInfo>)
    requires
        distinct_keys(s),
    ensures
        keyed(s) == s,
    decreases s.len(),
{
    if s.len() > 0 {
        let t = s.drop_last();
        assert(distinct_keys(t));
        lemma_keyed_distinct(t);
        if has_key(t, s.last().key()) {
            let i = choose|i: int| 0 <= i < t.len() && #[trigger] t[i].key() == s.last().key();
            assert(s[i].key() == s[s.len() - 1].key());
        }
        assert(keyed(s) =~= t.push(s.last()));
        assert(t.push(s.last()) =~= s);
    } else {
        assert(keyed(s) =~= s);
    }
}

// ---- laws of the diff ----

proof fn lemma_disconnects_all(prev: Seq<UsbDeviceInfo>, cur: Seq<UsbDeviceInfo>, now: i64)
    requires
        forall|i: int|
            0 <= i < prev.len() ==> !has_key(cur, #[trigger] prev[i].key())
                && prev[i].connection_status != ConnectionStatus::Disconnected,
    ensures
        disconnects(prev, cur, now).len() == prev.len(),
        forall|i: int|
            0 <= i < prev.len() ==> #[trigger] disconnects(prev, cur, now)[i]
                == UsbDeviceChange::Disconnected(
                prev[i].restamped(ConnectionStatus::Disconnected, now),
            ),
    decreases prev.len(),
{
    if prev.len() > 0 {
        let t = prev.drop_last();
        assert forall|i: int| 0 <= i < t.len() implies !has_key(cur, #[trigger] t[i].key())
            && t[i].connection_status != ConnectionStatus::Disconnected by {
            assert(t[i] == prev[i]);
            assert(!has_key(cur, prev[i].key()));
        }
        lemma_disconnects_all(t, cur, now);
        assert(!has_key(cur, prev[prev.len() - 1].key()));
    }
}

proof fn lemma_disconnects_none(prev: Seq<UsbDeviceInfo>, cur: Seq<UsbDeviceInfo>, now: i64)
    requires
        forall|i: int|
            0 <= i < prev.len() ==> has_key(cur, #[trigger] prev[i].key())
                || prev[i].connection_status == ConnectionStatus::Disconnected,
    ensures
        disconnects(prev, cur, now).len() == 0,
    decreases prev.len(),
{
    if prev.len() > 0 {
        let t = prev.drop_last();
        assert forall|i: int| 0 <= i < t.len() implies has_key(cur, #[trigger] t[i].key())
            || t[i].connection_status == ConnectionStatus::Disconnected by {
            assert(t[i] == prev[i]);
        }
        lemma_disconnects_none(t, cur, now);
        assert(has_key(cur, prev[prev.len() - 1].key()) || prev[prev.len() - 1].connection_status
            == ConnectionStatus::Disconnected);
    }
}

/// Every device of `cur` is new to `prev`: each yields Connected or Blocked.
proof fn lemma_arrivals_all_new(prev: Seq<UsbDeviceInfo>, cur: Seq<UsbDeviceInfo>, rules: DeviceRulesConfig)
    requires
        forall|i: int| 0 <= i < cur.len() ==> !has_key(prev, #[trigger] cur[i].key()),
    ensures
        arrivals(prev, cur, rules).len() == cur.len(),
        forall|i: int|
            0 <= i < cur.len() ==> {
                let c = #[trigger] arrivals(prev, cur, rules)[i];
                &&& c is Connected || c is Blocked
                &&& c.info() == cur[i].with_status(c.info().connection_status)
            },
    decreases cur.len(),
{
    if cur.len() > 0 {
        let t = cur.drop_last();
        assert forall|i: int| 0 <= i < t.len() implies !has_key(prev, #[trigger] t[i].key()) by {
            assert(t[i] == cur[i]);
        }
        lemma_arrivals_all_new(prev, t, rules);
        assert(!has_key(prev, cur[cur.len() - 1].key()));
    }
}

/// Every device of `cur` is already in `prev` under a status other than
/// Disconnected: no arrival change.
proof fn lemma_arrivals_none(prev: Seq<UsbDeviceInfo>, cur: Seq<UsbDeviceInfo>, rules: DeviceRulesConfig)
    requires
        forall|i: int|
            0 <= i < cur.len() ==> #[trigger] present_live(prev, cur[i].key()),
    ensures
        arrivals(prev, cur, rules).len() == 0,
    decreases cur.len(),
{
    if cur.len() > 0 {
        let t = cur.drop_last();
        assert forall|i: int| 0 <= i < t.len() implies #[trigger] present_live(prev, t[i].key()) by {
            assert(t[i] == cur[i]);
        }
        lemma_arrivals_none(prev, t, rules);
        assert(present_live(prev, cur[cur.len() - 1].key()));
    }
}

/// `prev` holds key `k` tagged Disconnected.
pub open spec fn departed_in(prev: Seq<UsbDeviceInfo>, k: DeviceKey) -> bool {
    find(prev, k) matches Some(p) && p.connection_status == ConnectionStatus::Disconnected
}

/// Every device of `cur` had left: each yields Reconnected.
proof fn lemma_arrivals_all_back(prev: Seq<UsbDeviceInfo>, cur: Seq<UsbDeviceInfo>, rules: DeviceRulesConfig)
    requires
        forall|i: int| 0 <= i < cur.len() ==> #[trigger] departed_in(prev, cur[i].key()),
    ensures
        arrivals(prev, cur, rules).len() == cur.len(),
        forall|i: int|
            0 <= i < cur.len() ==> #[trigger] arrivals(prev, cur, rules)[i]
                == UsbDeviceChange::Reconnected(cur[i].with_status(ConnectionStatus::Reconnected)),
    decreases cur.len(),
{
    if cur.len() > 0 {
        let t = cur.drop_last();
        assert forall|i: int| 0 <= i < t.len() implies #[trigger] departed_in(prev, t[i].key()) by {
            assert(t[i] == cur[i]);
        }
        lemma_arrivals_all_back(prev, t, rules);
        assert(departed_in(prev, cur[cur.len() - 1].key()));
    }
}

/// Shape of the departed part of the previous map: tombstones of previous
/// devices whose key is gone from `cur`, with distinct keys, covering every
/// such device.
pub proof fn lemma_gone(prev: Seq<UsbDeviceInfo>, cur: Seq<UsbDeviceInfo>, now: i64)
    requires
        distinct_keys(prev),
    ensures
        distinct_keys(gone(prev, cur, now)),
        forall|i: int|
            0 <= i < gone(prev, cur, now).len() ==> {
                let g = #[trigger] gone(prev, cur, now)[i];
                &&& g.connection_status == ConnectionStatus::Disconnected
                &&& !has_key(cur, g.key())
                &&& has_key(prev, g.key())
            },
        forall|j: int|
            0 <= j < prev.len() && !has_key(cur, #[trigger] prev[j].key()) ==> exists|i: int|
                0 <= i < gone(prev, cur, now).len() && gone(prev, cur, now)[i] == as_departed(
                    prev[j],
                    now,
                ),
    decreases prev.len(),
{
    let g = gone(prev, cur, now);
    if prev.len() > 0 {
        let t = prev.drop_last();
        let n = prev.len() - 1;
        assert forall|x: int, y: int| 0 <= x < t.len() && 0 <= y < t.len() && x != y implies t[x].key()
            != t[y].key() by {
            assert(t[x] == prev[x] && t[y] == prev[y]);
        }
        lemma_gone(t, cur, now);
        let gt = gone(t, cur, now);
        assert forall|i: int| 0 <= i < g.len() implies {
            let e = #[trigger] g[i];
            &&& e.connection_status == ConnectionStatus::Disconnected
            &&& !has_key(cur, e.key())
            &&& has_key(prev, e.key())
        } by {
            if i < gt.len() {
                assert(g[i] == gt[i]);
                assert(has_key(t, gt[i].key()));
                let j = choose|j: int| 0 <= j < t.len() && #[trigger] t[j].key() == gt[i].key();
                assert(prev[j] == t[j]);
            } else {
                assert(g[i] == as_departed(prev[n], now));
                assert(prev[n].key() == g[i].key());
            }
        }
        assert forall|x: int, y: int| 0 <= x < g.len() && 0 <= y < g.len() && x != y implies g[x].key()
            != g[y].key() by {
            if x < gt.len() && y < gt.len() {
                assert(g[x] == gt[x] && g[y] == gt[y]);
            } else if x < gt.len() || y < gt.len() {
                let k = if x < gt.len() { x } else { y };
                assert(g[k] == gt[k]);
                assert(has_key(t, gt[k].key()));
                let j = choose|j: int| 0 <= j < t.len() && #[trigger] t[j].key() == gt[k].key();
                assert(prev[j] == t[j]);
                assert(prev[j].key() != prev[n].key());
            }
        }
        assert forall|j: int| 0 <= j < prev.len() && !has_key(cur, #[trigger] prev[j].key()) implies exists|i: int|
            0 <= i < g.len() && g[i] == as_departed(prev[j], now) by {
            if j < n {
                assert(t[j] == prev[j]);
                assert(!has_key(cur, t[j].key()));
                let i = choose|i: int| 0 <= i < gt.len() && gt[i] == as_departed(t[j], now);
                assert(g[i] == gt[i]);
            } else {
                assert(g[gt.len() as int] == as_departed(prev[n], now));
            }
        }
    }
}

/// Shape of the next previous map: the present devices first (in the order
/// of `cur`, never tagged Disconnected), then the tombstones; keys stay
/// distinct.
pub proof fn lemma_next_prev(prev: Seq<UsbDeviceInfo>, cur: Seq<UsbDeviceInfo>, now: i64)
    requires
        distinct_keys(prev),
        distinct_keys(cur),
    ensures
        distinct_keys(next_prev(prev, cur, now)),
        forall|i: int|
            0 <= i < cur.len() ==> #[trigger] next_prev(prev, cur, now)[i] == as_present(cur[i]),
        forall|i: int|
            cur.len() <= i < next_prev(prev, cur, now).len() ==> (#[trigger] next_prev(
                prev,
                cur,
                now,
            )[i]).connection_status == ConnectionStatus::Disconnected,
{
    lemma_gone(prev, cur, now);
    let l = live(cur);
    let g = gone(prev, cur, now);
    let m = next_prev(prev, cur, now);
    assert forall|i: int| 0 <= i < cur.len() implies #[trigger] m[i] == as_present(cur[i]) by {
        assert(m[i] == l[i]);
    }
    assert forall|i: int| cur.len() <= i < m.len() implies (#[trigger] m[i]).connection_status
        == ConnectionStatus::Disconnected by {
        assert(m[i] == g[i - cur.len()]);
    }
    assert forall|x: int, y: int| 0 <= x < m.len() && 0 <= y < m.len() && x != y implies m[x].key()
        != m[y].key() by {
        if x < cur.len() && y < cur.len() {
            assert(m[x].key() == cur[x].key() && m[y].key() == cur[y].key());
        } else if x >= cur.len() && y >= cur.len() {
            assert(m[x] == g[x - cur.len()] && m[y] == g[y - cur.len()]);
        } else {
            let (a, b) = if x < cur.len() { (x, y) } else { (y, x) };
            assert(m[a].key() == cur[a].key());
            assert(m[b] == g[b - cur.len()]);
            assert(!has_key(cur, g[b - cur.len()].key()));
        }
    }
}

/// Disjoint snapshots: a pass from a previous map `s1` of present devices
/// to a current snapshot `s2` that shares no key with it emits one
/// Disconnected change for each device of `s1`, then one Connected or
/// Blocked change for each device of `s2`, and no Reconnected change.
pub proof fn lemma_disjoint_snapshots(
    s1: Seq<UsbDeviceInfo>,
    s2: Seq<UsbDeviceInfo>,
    rules: DeviceRulesConfig,
    now: i64,
)
    requires
        distinct_keys(s1),
        distinct_keys(s2),
        forall|i: int|
            0 <= i < s1.len() ==> (#[trigger] s1[i]).connection_status
                != ConnectionStatus::Disconnected,
        forall|i: int, j: int|
            0 <= i < s1.len() && 0 <= j < s2.len() ==> s1[i].key() != s2[j].key(),
    ensures
        ({
            let ch = diff_changes(s1, s2, rules, now);
            &&& ch.len() == s1.len() + s2.len()
            &&& forall|i: int| 0 <= i < s1.len() ==> #[trigger] ch[i] is Disconnected
            &&& forall|i: int|
                s1.len() <= i < ch.len() ==> #[trigger] ch[i] is Connected || ch[i] is Blocked
            &&& forall|i: int| 0 <= i < ch.len() ==> !(#[trigger] ch[i] is Reconnected)
        }),
{
    lemma_keyed_distinct(s2);
    assert forall|i: int| 0 <= i < s1.len() implies !has_key(s2, #[trigger] s1[i].key())
        && s1[i].connection_status != ConnectionStatus::Disconnected by {
        if has_key(s2, s1[i].key()) {
            let j = choose|j: int| 0 <= j < s2.len() && #[trigger] s2[j].key() == s1[i].key();
        }
    }
    assert forall|j: int| 0 <= j < s2.len() implies !has_key(s1, #[trigger] s2[j].key()) by {
        if has_key(s1, s2[j].key()) {
            let i = choose|i: int| 0 <= i < s1.len() && #[trigger] s1[i].key() == s2[j].key();
        }
    }
    lemma_disconnects_all(s1, s2, now);
    lemma_arrivals_all_new(s1, s2, rules);
    let d = disconnects(s1, s2, now);
    let a = arrivals(s1, s2, rules);
    let ch = d + a;
    assert forall|i: int| 0 <= i < s1.len() implies #[trigger] ch[i] is Disconnected by {
        assert(ch[i] == d[i]);
    }
    assert forall|i: int| s1.len() <= i < ch.len() implies #[trigger] ch[i] is Connected || ch[i] is Blocked by {
        assert(ch[i] == a[i - s1.len()]);
    }
}

/// Steady state: after a pass over `current` from any previous map, a
/// second pass over the same snapshot emits nothing.
pub proof fn lemma_second_pass_is_quiet(
    prev: Seq<UsbDeviceInfo>,
    current: Seq<UsbDeviceInfo>,
    rules: DeviceRulesConfig,
    now1: i64,
    now2: i64,
)
    requires
        distinct_keys(prev),
    ensures
        diff_changes(next_prev(prev, keyed(current), now1), current, rules, now2).len() == 0,
{
    let cur = keyed(current);
    lemma_keyed(current);
    lemma_next_prev(prev, cur, now1);
    let m = next_prev(prev, cur, now1);
    assert forall|i: int| 0 <= i < m.len() implies has_key(cur, #[trigger] m[i].key())
        || m[i].connection_status == ConnectionStatus::Disconnected by {
        if i < cur.len() {
            assert(m[i].key() == cur[i].key());
        }
    }
    lemma_disconnects_none(m, cur, now2);
    assert forall|i: int| 0 <= i < cur.len() implies #[trigger] present_live(m, cur[i].key()) by {
        lemma_find_at(m, i);
        assert(m[i].key() == cur[i].key());
    }
    lemma_arrivals_none(m, cur, rules);
}

/// Reconnection: when every device of a map `a` of present devices leaves
/// (a pass to an empty snapshot), each is reported Disconnected, in order,
/// and stays in the map tagged Disconnected. When devices with exactly
/// those keys come back, each is reported Reconnected, never Connected or
/// Blocked.
pub proof fn lemma_reconnection(
    a: Seq<UsbDeviceInfo>,
    b: Seq<UsbDeviceInfo>,
    rules: DeviceRulesConfig,
    now1: i64,
    now2: i64,
)
    requires
        distinct_keys(a),
        distinct_keys(b),
        forall|i: int|
            0 <= i < a.len() ==> (#[trigger] a[i]).connection_status
                != ConnectionStatus::Disconnected,
        forall|k: DeviceKey| has_key(a, k) <==> has_key(b, k),
    ensures
        ({
            let ch1 = diff_changes(a, Seq::empty(), rules, now1);
            &&& ch1.len() == a.len()
            &&& forall|i: int|
                0 <= i < a.len() ==> #[trigger] ch1[i] == UsbDeviceChange::Disconnected(
                    a[i].restamped(ConnectionStatus::Disconnected, now1),
                )
        }),
        ({
            let p1 = next_prev(a, keyed(Seq::empty()), now1);
            let ch2 = diff_changes(p1, b, rules, now2);
            &&& ch2.len() == b.len()
            &&& forall|i: int|
                0 <= i < b.len() ==> #[trigger] ch2[i] == UsbDeviceChange::Reconnected(
                    b[i].with_status(ConnectionStatus::Reconnected),
                )
        }),
{
    let e = Seq::<UsbDeviceInfo>::empty();
    assert(keyed(e) =~= e);
    assert forall|i: int| 0 <= i < a.len() implies !has_key(e, #[trigger] a[i].key())
        && a[i].connection_status != ConnectionStatus::Disconnected by {
    }
    lemma_disconnects_all(a, e, now1);
    assert(arrivals(a, e, rules) =~= Seq::<UsbDeviceChange>::empty());
    let ch1 = diff_changes(a, e, rules, now1);
    assert(ch1 =~= disconnects(a, e, now1));
    lemma_next_prev(a, e, now1);
    lemma_gone(a, e, now1);
    let p1 = next_prev(a, e, now1);
    assert(live(e) =~= e);
    assert(p1 =~= gone(a, e, now1));
    lemma_keyed_distinct(b);
    assert forall|i: int| 0 <= i < p1.len() implies has_key(b, #[trigger] p1[i].key())
        || p1[i].connection_status == ConnectionStatus::Disconnected by {
    }
    lemma_disconnects_none(p1, b, now2);
    assert forall|i: int| 0 <= i < b.len() implies #[trigger] departed_in(p1, b[i].key()) by {
        assert(has_key(b, b[i].key()));
        assert(has_key(a, b[i].key()));
        let j = choose|j: int| 0 <= j < a.len() && #[trigger] a[j].key() == b[i].key();
        assert(!has_key(e, a[j].key()));
        let x = choose|x: int| 0 <= x < p1.len() && p1[x] == as_departed(a[j], now1);
        lemma_find_at(p1, x);
        assert(p1[x].key() == b[i].key());
    }
    lemma_arrivals_all_back(p1, b, rules);
    let ch2 = diff_changes(p1, b, rules, now2);
    assert(ch2 =~= arrivals(p1, b, rules));
}

/// A device is back: when the previous map holds key `k` tagged
/// Disconnected and the current snapshot holds it again, the pass emits a
/// Reconnected change for it.
pub proof fn lemma_flicker_reconnects(
    prev: Seq<UsbDeviceInfo>,
    d: UsbDeviceInfo,
    rules: DeviceRulesConfig,
)
    requires
        find(prev, d.key()) matches Some(p) && p.connection_status == ConnectionStatus::Disconnected,
    ensures
        arrival(prev, d, rules) == Some(
            UsbDeviceChange::Reconnected(d.with_status(ConnectionStatus::Reconnected)),
        ),
{
}

/// `c` is the arrival change of some device of `cur`.
pub open spec fn arrival_from(prev: Seq<UsbDeviceInfo>, cur: Seq<UsbDeviceInfo>, rules: DeviceRulesConfig, c: UsbDeviceChange) -> bool {
    exists|j: int| 0 <= j < cur.len() && arrival(prev, #[trigger] cur[j], rules) == Some(c)
}

/// Each arrival change comes from a device of `cur`, carries that device's
/// key, no two share a key, and every device that causes one is covered.
pub proof fn lemma_arrivals_shape(prev: Seq<UsbDeviceInfo>, cur: Seq<UsbDeviceInfo>, rules: DeviceRulesConfig)
    requires
        distinct_keys(cur),
    ensures
        forall|i: int|
            0 <= i < arrivals(prev, cur, rules).len() ==> arrival_from(
                prev,
                cur,
                rules,
                #[trigger] arrivals(prev, cur, rules)[i],
            ),
        forall|i: int, i2: int|
            0 <= i < arrivals(prev, cur, rules).len() && 0 <= i2 < arrivals(prev, cur, rules).len()
                && i != i2 ==> arrivals(prev, cur, rules)[i].info().key() != arrivals(
                prev,
                cur,
                rules,
            )[i2].info().key(),
        forall|j: int|
            0 <= j < cur.len() && (#[trigger] arrival(prev, cur[j], rules)) is Some ==> exists|i: int|
                0 <= i < arrivals(prev, cur, rules).len() && Some(arrivals(prev, cur, rules)[i])
                    == arrival(prev, cur[j], rules),
    decreases cur.len(),
{
    let a = arrivals(prev, cur, rules);
    if cur.len() > 0 {
        let t = cur.drop_last();
        let n = cur.len() - 1;
        assert forall|x: int, y: int| 0 <= x < t.len() && 0 <= y < t.len() && x != y implies t[x].key()
            != t[y].key() by {
            assert(t[x] == cur[x] && t[y] == cur[y]);
        }
        lemma_arrivals_shape(prev, t, rules);
        let at = arrivals(prev, t, rules);
        assert forall|i: int| 0 <= i < a.len() implies arrival_from(prev, cur, rules, #[trigger] a[i]) by {
            if i < at.len() {
                assert(a[i] == at[i]);
                assert(arrival_from(prev, t, rules, at[i]));
                let j = choose|j: int| 0 <= j < t.len() && arrival(prev, #[trigger] t[j], rules) == Some(at[i]);
                assert(cur[j] == t[j]);
            } else {
                assert(arrival(prev, cur[n], rules) == Some(a[i]));
            }
        }
        assert forall|i: int, i2: int|
            0 <= i < a.len() && 0 <= i2 < a.len() && i != i2 implies a[i].info().key() != a[i2].info().key() by {
            if i < at.len() && i2 < at.len() {
                assert(a[i] == at[i] && a[i2] == at[i2]);
            } else {
                let k = if i < at.len() { i } else { i2 };
                assert(a[k] == at[k]);
                assert(arrival_from(prev, t, rules, at[k]));
                let j = choose|j: int| 0 <= j < t.len() && arrival(prev, #[trigger] t[j], rules) == Some(at[k]);
                assert(t[j] == cur[j]);
                assert(cur[j].key() != cur[n].key());
            }
        }
        assert forall|j: int|
            0 <= j < cur.len() && (#[trigger] arrival(prev, cur[j], rules)) is Some implies exists|i: int|
                0 <= i < a.len() && Some(a[i]) == arrival(prev, cur[j], rules) by {
            if j < n {
                assert(t[j] == cur[j]);
                assert(arrival(prev, t[j], rules) is Some);
                let i = choose|i: int| 0 <= i < at.len() && Some(at[i]) == arrival(prev, t[j], rules);
                assert(a[i] == at[i]);
            } else {
                assert(a[at.len() as int] == arrival(prev, cur[n], rules)->0);
            }
        }
    }
}

/// Each newcomer is a device of `cur` new to `prev`, no two share a key, and
/// every device of `cur` new to `prev` is one.
pub proof fn lemma_newcomers_shape(prev: Seq<UsbDeviceInfo>, cur: Seq<UsbDeviceInfo>)
    requires
        distinct_keys(cur),
    ensures
        forall|i: int|
            0 <= i < newcomers(prev, cur).len() ==> !has_key(prev, #[trigger] newcomers(prev, cur)[i].key())
                && exists|j: int| 0 <= j < cur.len() && cur[j] == newcomers(prev, cur)[i],
        forall|i: int, i2: int|
            0 <= i < newcomers(prev, cur).len() && 0 <= i2 < newcomers(prev, cur).len() && i != i2
                ==> newcomers(prev, cur)[i].key() != newcomers(prev, cur)[i2].key(),
        forall|j: int|
            0 <= j < cur.len() && !has_key(prev, #[trigger] cur[j].key()) ==> exists|i: int|
                0 <= i < newcomers(prev, cur).len() && newcomers(prev, cur)[i] == cur[j],
    decreases cur.len(),
{
    let a = newcomers(prev, cur);
    if cur.len() > 0 {
        let t = cur.drop_last();
        let n = cur.len() - 1;
        assert forall|x: int, y: int| 0 <= x < t.len() && 0 <= y < t.len() && x != y implies t[x].key()
            != t[y].key() by {
            assert(t[x] == cur[x] && t[y] == cur[y]);
        }
        lemma_newcomers_shape(prev, t);
        let at = newcomers(prev, t);
        assert forall|i: int| 0 <= i < a.len() implies !has_key(prev, #[trigger] a[i].key()) && exists|j: int|
            0 <= j < cur.len() && cur[j] == a[i] by {
            if i < at.len() {
                assert(a[i] == at[i]);
                assert(!has_key(prev, at[i].key()));
                let j = choose|j: int| 0 <= j < t.len() && t[j] == at[i];
                assert(cur[j] == t[j]);
            } else {
                assert(a[i] == cur[n]);
            }
        }
        assert forall|i: int, i2: int|
            0 <= i < a.len() && 0 <= i2 < a.len() && i != i2 implies a[i].key() != a[i2].key() by {
            if i < at.len() && i2 < at.len() {
                assert(a[i] == at[i] && a[i2] == at[i2]);
            } else {
                let k = if i < at.len() { i } else { i2 };
                assert(a[k] == at[k]);
                assert(!has_key(prev, at[k].key()));
                let j = choose|j: int| 0 <= j < t.len() && t[j] == at[k];
                assert(t[j] == cur[j]);
                assert(cur[j].key() != cur[n].key());
            }
        }
        assert forall|j: int| 0 <= j < cur.len() && !has_key(prev, #[trigger] cur[j].key()) implies exists|i: int|
            0 <= i < a.len() && a[i] == cur[j] by {
            if j < n {
                assert(t[j] == cur[j]);
                assert(!has_key(prev, t[j].key()));
                let i = choose|i: int| 0 <= i < at.len() && at[i] == t[j];
                assert(a[i] == at[i]);
            } else {
                assert(a[at.len() as int] == cur[n]);
            }
        }
    }
}

/// Each disconnect change carries the key of a device of `prev`.
pub proof fn lemma_disconnects_keys(prev: Seq<UsbDeviceInfo>, cur: Seq<UsbDeviceInfo>, now: i64)
    ensures
        forall|i: int|
            0 <= i < disconnects(prev, cur, now).len() ==> has_key(
                prev,
                (#[trigger] disconnects(prev, cur, now)[i]).info().key(),
            ),
    decreases prev.len(),
{
    let a = disconnects(prev, cur, now);
    if prev.len() > 0 {
        let t = prev.drop_last();
        let n = prev.len() - 1;
        lemma_disconnects_keys(t, cur, now);
        let at = disconnects(t, cur, now);
        assert forall|i: int| 0 <= i < a.len() implies has_key(prev, (#[trigger] a[i]).info().key()) by {
            if i < at.len() {
                assert(a[i] == at[i]);
                assert(has_key(t, at[i].info().key()));
                let j = choose|j: int| 0 <= j < t.len() && #[trigger] t[j].key() == at[i].info().key();
                assert(prev[j] == t[j]);
            } else {
                assert(a[i].info().key() == prev[n].key());
            }
        }
    }
}

// ---- executable keyed map ----

/// Index of the snapshot with key `k` in a keyed map, if any.
pub fn index_of_key(m: &Vec<UsbDeviceInfo>, k: DeviceKey) -> (r: Option<usize>)
    requires
        distinct_keys(m@),
    ensures
        match r {
            Some(i) => i < m.len() && m@[i as int].key() == k && key_index(m@, k) == i && has_key(
                m@,
                k,
            ) && find(m@, k) == Some(m@[i as int]),
            None => !has_key(m@, k) && find(m@, k) is None,
        },
{
    let mut i: usize = 0;
    while i < m.len()
        invariant
            i <= m.len(),
            distinct_keys(m@),
            forall|j: int| 0 <= j < i ==> #[trigger] m@[j].key() != k,
        decreases m.len() - i,
    {
        if m[i].create_device_key() == k {
            proof {
                lemma_find_at(m@, i as int);
            }
            return Some(i);
        }
        i = i + 1;
    }
    None
}

/// Builds the keyed map of a snapshot.
pub fn build_keyed(current: &Vec<UsbDeviceInfo>) -> (r: Vec<UsbDeviceInfo>)
    ensures
        r@ == keyed(current@),
        distinct_keys(r@),
{
    let mut out: Vec<UsbDeviceInfo> = Vec::new();
    let mut i: usize = 0;
    assert(keyed(current@.subrange(0, 0)) =~= out@);
    while i < current.len()
        invariant
            i <= current.len(),
            out@ == keyed(current@.subrange(0, i as int)),
            distinct_keys(out@),
        decreases current.len() - i,
    {
        let d = current[i].clone();
        let ghost before = out@;
        proof {
            lemma_put(before, d);
            assert(current@.subrange(0, i + 1).drop_last() =~= current@.subrange(0, i as int));
        }
        match index_of_key(&out, d.create_device_key()) {
            Some(j) => {
                out.set(j, d);
            },
            None => {
                out.push(d);
            },
        }
        i = i + 1;
    }
    assert(current@.subrange(0, current.len() as int) =~= current@);
    out
}

/// Builds the previous map for the next pass: the present devices of the
/// keyed map `cur`, then the departed devices of `prev`.
pub fn build_next_prev(prev: &Vec<UsbDeviceInfo>, cur: &Vec<UsbDeviceInfo>, now: i64) -> (r: Vec<
    UsbDeviceInfo,
>)
    requires
        distinct_keys(prev@),
        distinct_keys(cur@),
    ensures
        r@ == next_prev(prev@, cur@, now),
        distinct_keys(r@),
{
    let mut out: Vec<UsbDeviceInfo> = Vec::new();
    let mut i: usize = 0;
    while i < cur.len()
        invariant
            i <= cur.len(),
            out@ == live(cur@.subrange(0, i as int)),
        decreases cur.len() - i,
    {
        let mut d = cur[i].clone();
        if d.connection_status == ConnectionStatus::Disconnected {
            d.connection_status = ConnectionStatus::Connected;
        }
        out.push(d);
        i = i + 1;
        assert(out@ =~= live(cur@.subrange(0, i as int)));
    }
    assert(cur@.subrange(0, cur@.len() as int) =~= cur@);
    let mut j: usize = 0;
    assert(gone(prev@.subrange(0, 0), cur@, now) =~= Seq::<UsbDeviceInfo>::empty());
    assert(out@ =~= live(cur@) + gone(prev@.subrange(0, 0), cur@, now));
    while j < prev.len()
        invariant
            j <= prev.len(),
            distinct_keys(cur@),
            out@ == live(cur@) + gone(prev@.subrange(0, j as int), cur@, now),
        decreases prev.len() - j,
    {
        let ghost sub = prev@.subrange(0, j + 1);
        proof {
            assert(sub.drop_last() =~= prev@.subrange(0, j as int));
            assert(sub.last() == prev@[j as int]);
        }
        if index_of_key(cur, prev[j].create_device_key()).is_none() {
            let mut d = prev[j].clone();
            if d.connection_status != ConnectionStatus::Disconnected {
                d.connection_status = ConnectionStatus::Disconnected;
                d.timestamp = now;
            }
            out.push(d);
        }
        j = j + 1;
        assert(out@ =~= live(cur@) + gone(prev@.subrange(0, j as int), cur@, now));
    }
    assert(prev@.subrange(0, prev@.len() as int) =~= prev@);
    proof {
        lemma_next_prev(prev@, cur@, now);
    }
    out
}

} // verus!
