use vstd::prelude::*;

use crate::text::opt_string_view;

verus! {

/// The monitors that get a new bar: scanning the connected monitors in order,
/// each one that has no bar yet and was not already added.
pub open spec fn added_monitors(bars: Seq<u64>, active: Seq<u64>) -> Seq<u64>
    decreases active.len(),
{
    if active.len() == 0 {
        seq![]
    } else {
        let prev = added_monitors(bars, active.drop_last());
        let m = active.last();
        if bars.contains(m) || prev.contains(m) {
            prev
        } else {
            prev.push(m)
        }
    }
}

/// The bars, in order, whose monitor is still connected.
pub open spec fn retain_connected(bars: Seq<u64>, active: Seq<u64>) -> Seq<u64>
    decreases bars.len(),
{
    if bars.len() == 0 {
        seq![]
    } else {
        let prev = retain_connected(bars.drop_last(), active);
        if active.contains(bars.last()) {
            prev.push(bars.last())
        } else {
            prev
        }
    }
}

/// The monitors of the bars after an update: the surviving bars followed by the new ones.
pub open spec fn bars_after_update(bars: Seq<u64>, active: Seq<u64>) -> Seq<u64> {
    retain_connected(bars, active) + added_monitors(bars, active)
}

/// The items whose flag in `keep` is set, in order.
pub open spec fn kept_items<T>(items: Seq<T>, keep: Seq<bool>) -> Seq<T>
    decreases items.len(),
{
    if items.len() == 0 || keep.len() == 0 {
        seq![]
    } else {
        let prev = kept_items(items.drop_last(), keep.drop_last());
        if keep.last() {
            prev.push(items.last())
        } else {
            prev
        }
    }
}

/// The flags of `keep`, each turned over.
pub open spec fn flipped(keep: Seq<bool>) -> Seq<bool> {
    keep.map_values(|b: bool| !b)
}

/// The changes that bring the bars in line with the connected monitors.
pub struct MonitorUpdate {
    /// For each existing bar, in order, whether it stays (its monitor is still connected).
    pub keep: Vec<bool>,
    /// The monitors that get a new bar, in the order their bars are created.
    pub added: Vec<u64>,
}

/// Whether `ids` holds `id`.
pub fn contains_id(ids: &Vec<u64>, id: u64) -> (b: bool)
    ensures
        b == ids@.contains(id),
{
    let mut i: usize = 0;
    while i < ids.len()
        invariant
            i <= ids@.len(),
            forall|j: int| 0 <= j < i ==> ids@[j] != id,
        decreases ids.len() - i,
    {
        if ids[i] == id {
            assert(ids@[i as int] == id);
            return true;
        }
        i = i + 1;
    }
    false
}

/// Compares the monitors that have a bar (`bars`, one entry per bar) with the
/// connected monitors: every connected monitor without a bar gets one, and every
/// bar whose monitor is gone is removed. Monitors are named by ids.
pub fn update_monitors(bars: &Vec<u64>, active_monitors: &Vec<u64>) -> (u: MonitorUpdate)
    ensures
        u.keep@.len() == bars@.len(),
        forall|i: int| 0 <= i < bars@.len() ==> u.keep@[i] == active_monitors@.contains(bars@[i]),
        u.added@ == added_monitors(bars@, active_monitors@),
        kept_items(bars@, u.keep@) + u.added@ == bars_after_update(bars@, active_monitors@),
{
    let mut added: Vec<u64> = Vec::new();
    let mut i: usize = 0;
    while i < active_monitors.len()
        invariant
            i <= active_monitors@.len(),
            added@ == added_monitors(bars@, active_monitors@.take(i as int)),
        decreases active_monitors.len() - i,
    {
        let m = active_monitors[i];
        proof {
            assert(active_monitors@.take(i + 1).drop_last() =~= active_monitors@.take(i as int));
        }
        if !contains_id(bars, m) && !contains_id(&added, m) {
            added.push(m);
        }
        i = i + 1;
    }
    assert(active_monitors@.take(active_monitors@.len() as int) =~= active_monitors@);
    let mut keep: Vec<bool> = Vec::new();
    let mut j: usize = 0;
    while j < bars.len()
        invariant
            j <= bars@.len(),
            keep@.len() == j,
            forall|k: int| 0 <= k < j ==> keep@[k] == active_monitors@.contains(bars@[k]),
        decreases bars.len() - j,
    {
        let alive = contains_id(active_monitors, bars[j]);
        keep.push(alive);
        j = j + 1;
    }
    proof {
        lemma_kept_is_retained(bars@, active_monitors@, keep@);
    }
    MonitorUpdate { keep, added }
}

proof fn lemma_kept_is_retained(bars: Seq<u64>, active: Seq<u64>, keep: Seq<bool>)
    requires
        keep.len() == bars.len(),
        forall|i: int| 0 <= i < bars.len() ==> keep[i] == active.contains(bars[i]),
    ensures
        kept_items(bars, keep) == retain_connected(bars, active),
    decreases bars.len(),
{
    if bars.len() > 0 {
        assert forall|i: int| 0 <= i < bars.drop_last().len() implies keep.drop_last()[i]
            == active.contains(bars.drop_last()[i]) by {
            assert(keep.drop_last()[i] == keep[i]);
            assert(bars.drop_last()[i] == bars[i]);
        }
        lemma_kept_is_retained(bars.drop_last(), active, keep.drop_last());
        assert(keep.last() == keep[keep.len() - 1]);
    }
}

/// Carries out an update on the items that stand for the bars (one per bar, in
/// order): returns the items that stay followed by `new_items`, and the items
/// whose bars are to be removed, in order.
pub fn apply_monitor_update<T>(items: Vec<T>, keep: &Vec<bool>, new_items: Vec<T>) -> (r: (
    Vec<T>,
    Vec<T>,
))
    requires
        items@.len() == keep@.len(),
    ensures
        r.0@ == kept_items(items@, keep@) + new_items@,
        r.1@ == kept_items(items@, flipped(keep@)),
{
    let ghost orig = items@;
    let ghost flags = keep@;
    let mut items = items;
    let mut new_items = new_items;
    let mut kept: Vec<T> = Vec::new();
    let mut dropped: Vec<T> = Vec::new();
    let n = keep.len();
    let mut i: usize = 0;
    while i < n
        invariant
            n == flags.len(),
            orig.len() == n,
            flags == keep@,
            i <= n,
            items@ == orig.subrange(i as int, n as int),
            kept@ == kept_items(orig.take(i as int), flags.take(i as int)),
            dropped@ == kept_items(orig.take(i as int), flipped(flags).take(i as int)),
        decreases n - i,
    {
        let item = items.remove(0);
        proof {
            assert(orig.take(i + 1).drop_last() =~= orig.take(i as int));
            assert(flags.take(i + 1).drop_last() =~= flags.take(i as int));
            assert(flipped(flags).take(i + 1).drop_last() =~= flipped(flags).take(i as int));
            assert(orig.take(i + 1).last() == orig[i as int]);
            assert(flags.take(i + 1).last() == flags[i as int]);
            assert(flipped(flags).take(i + 1).last() == !flags[i as int]);
            assert(item == orig[i as int]);
        }
        if keep[i] {
            kept.push(item);
        } else {
            dropped.push(item);
        }
        i = i + 1;
        proof {
            assert(items@ =~= orig.subrange(i as int, n as int));
        }
    }
    proof {
        assert(orig.take(n as int) =~= orig);
        assert(flags.take(n as int) =~= flags);
        assert(flipped(flags).take(n as int) =~= flipped(flags));
    }
    kept.append(&mut new_items);
    (kept, dropped)
}

/// For each bar, given the connector name of its monitor (if known), whether it
/// is on the output `output`: the bars that a workspace change on that output concerns.
pub fn workspace_targets(connectors: &Vec<Option<String>>, output: &String) -> (targets: Vec<bool>)
    ensures
        targets@.len() == connectors@.len(),
        forall|i: int|
            0 <= i < connectors@.len() ==> targets@[i] == (opt_string_view(connectors@[i]) == Some(
                output@,
            )),
{
    let mut targets: Vec<bool> = Vec::new();
    let mut i: usize = 0;
    while i < connectors.len()
        invariant
            i <= connectors@.len(),
            targets@.len() == i,
            forall|k: int|
                0 <= k < i ==> targets@[k] == (opt_string_view(connectors@[k]) == Some(output@)),
        decreases connectors.len() - i,
    {
        let is_target = match &connectors[i] {
            Some(connector) => connector.eq(output),
            None => false,
        };
        targets.push(is_target);
        i = i + 1;
    }
    targets
}

proof fn lemma_added_in_active(bars: Seq<u64>, active: Seq<u64>)
    ensures
        forall|m: u64| #[trigger] added_monitors(bars, active).contains(m) ==> active.contains(m),
        forall|m: u64| #[trigger] added_monitors(bars, active).contains(m) ==> !bars.contains(m),
        added_monitors(bars, active).no_duplicates(),
    decreases active.len(),
{
    if active.len() > 0 {
        let init = active.drop_last();
        let prev = added_monitors(bars, init);
        lemma_added_in_active(bars, init);
        let last = active.last();
        assert forall|m: u64| prev.contains(m) implies active.contains(m) by {
            assert(init.contains(m));
            let k = choose|k: int| 0 <= k < init.len() && init[k] == m;
            assert(active[k] == m);
        }
        assert(active[active.len() - 1] == last);
        if !(bars.contains(last) || prev.contains(last)) {
            let cur = prev.push(last);
            assert forall|x: u64| cur.contains(x) implies x == last || prev.contains(x) by {
                let k = choose|k: int| 0 <= k < cur.len() && cur[k] == x;
                if k < prev.len() {
                    assert(prev[k] == x);
                }
            }
            assert forall|i: int, j: int|
                0 <= i < cur.len() && 0 <= j < cur.len() && i != j implies cur[i] != cur[j] by {
                if i < prev.len() && j < prev.len() {
                    assert(prev[i] != prev[j]);
                } else if i < prev.len() {
                    assert(prev.contains(prev[i]));
                } else {
                    assert(prev.contains(prev[j]));
                }
            }
        }
    }
}

proof fn lemma_active_covered(bars: Seq<u64>, active: Seq<u64>)
    ensures
        forall|m: u64|
            active.contains(m) ==> bars.contains(m) || added_monitors(bars, active).contains(m),
    decreases active.len(),
{
    if active.len() > 0 {
        let prev = added_monitors(bars, active.drop_last());
        lemma_active_covered(bars, active.drop_last());
        let last = active.last();
        assert forall|m: u64| active.contains(m) implies bars.contains(m) || added_monitors(
            bars,
            active,
        ).contains(m) by {
            let k = choose|k: int| 0 <= k < active.len() && active[k] == m;
            if k < active.len() - 1 {
                assert(active.drop_last()[k] == m);
                assert(active.drop_last().contains(m));
                if prev.contains(m) {
                    let q = choose|q: int| 0 <= q < prev.len() && prev[q] == m;
                    if !(bars.contains(last) || prev.contains(last)) {
                        assert(prev.push(last)[q] == m);
                    }
                }
            } else {
                if !(bars.contains(last) || prev.contains(last)) {
                    assert(prev.push(last)[prev.len() as int] == m);
                }
            }
        }
    }
}

proof fn lemma_retain_props(bars: Seq<u64>, active: Seq<u64>)
    ensures
        forall|m: u64| retain_connected(bars, active).contains(m) <==> (bars.contains(m)
            && active.contains(m)),
        bars.no_duplicates() ==> retain_connected(bars, active).no_duplicates(),
    decreases bars.len(),
{
    if bars.len() > 0 {
        let init = bars.drop_last();
        let last = bars.last();
        let prev = retain_connected(init, active);
        lemma_retain_props(init, active);
        assert(bars =~= init.push(last));
        assert forall|m: u64| bars.contains(m) <==> (init.contains(m) || m == last) by {
            if bars.contains(m) {
                let k = choose|k: int| 0 <= k < bars.len() && bars[k] == m;
                if k < bars.len() - 1 {
                    assert(init[k] == m);
                }
            }
            if init.contains(m) {
                let k = choose|k: int| 0 <= k < init.len() && init[k] == m;
                assert(bars[k] == m);
            }
            if m == last {
                assert(bars[bars.len() - 1] == m);
            }
        }
        if active.contains(last) {
            assert forall|m: u64| prev.push(last).contains(m) <==> (prev.contains(m) || m == last) by {
                if prev.push(last).contains(m) {
                    let k = choose|k: int| 0 <= k < prev.push(last).len() && prev.push(last)[k] == m;
                    if k < prev.len() {
                        assert(prev[k] == m);
                    }
                }
                if prev.contains(m) {
                    let k = choose|k: int| 0 <= k < prev.len() && prev[k] == m;
                    assert(prev.push(last)[k] == m);
                }
                if m == last {
                    assert(prev.push(last)[prev.len() as int] == m);
                }
            }
            if bars.no_duplicates() {
                assert(init.no_duplicates());
                assert(!init.contains(last)) by {
                    if init.contains(last) {
                        let k = choose|k: int| 0 <= k < init.len() && init[k] == last;
                        assert(bars[k] == bars[bars.len() - 1]);
                    }
                }
            }
        }
    }
}

proof fn lemma_concat_contains(a: Seq<u64>, b: Seq<u64>)
    ensures
        forall|m: u64| (a + b).contains(m) <==> (a.contains(m) || b.contains(m)),
{
    assert forall|m: u64| (a + b).contains(m) <==> (a.contains(m) || b.contains(m)) by {
        if (a + b).contains(m) {
            let k = choose|k: int| 0 <= k < (a + b).len() && (a + b)[k] == m;
            if k < a.len() {
                assert(a[k] == m);
            } else {
                assert(b[k - a.len()] == m);
            }
        }
        if a.contains(m) {
            let k = choose|k: int| 0 <= k < a.len() && a[k] == m;
            assert((a + b)[k] == m);
        }
        if b.contains(m) {
            let k = choose|k: int| 0 <= k < b.len() && b[k] == m;
            assert((a + b)[k + a.len()] == m);
        }
    }
}

proof fn lemma_added_empty_when_covered(bars: Seq<u64>, active: Seq<u64>)
    requires
        forall|m: u64| active.contains(m) ==> bars.contains(m),
    ensures
        added_monitors(bars, active) == Seq::<u64>::empty(),
    decreases active.len(),
{
    if active.len() > 0 {
        assert forall|m: u64| active.drop_last().contains(m) implies bars.contains(m) by {
            let k = choose|k: int| 0 <= k < active.drop_last().len() && active.drop_last()[k] == m;
            assert(active[k] == m);
        }
        lemma_added_empty_when_covered(bars, active.drop_last());
        assert(active[active.len() - 1] == active.last());
    }
}

proof fn lemma_retain_all(bars: Seq<u64>, active: Seq<u64>)
    requires
        forall|m: u64| bars.contains(m) ==> active.contains(m),
    ensures
        retain_connected(bars, active) == bars,
    decreases bars.len(),
{
    if bars.len() > 0 {
        assert forall|m: u64| bars.drop_last().contains(m) implies active.contains(m) by {
            let k = choose|k: int| 0 <= k < bars.drop_last().len() && bars.drop_last()[k] == m;
            assert(bars[k] == m);
        }
        lemma_retain_all(bars.drop_last(), active);
        assert(bars[bars.len() - 1] == bars.last());
        assert(bars.drop_last().push(bars.last()) =~= bars);
    }
}

/// After an update every connected monitor has a bar, every bar is on a connected
/// monitor, and no monitor has two bars if none had before.
pub proof fn lemma_update_matches_monitors(bars: Seq<u64>, active: Seq<u64>)
    ensures
        forall|m: u64| active.contains(m) ==> bars_after_update(bars, active).contains(m),
        forall|m: u64| bars_after_update(bars, active).contains(m) ==> active.contains(m),
        bars.no_duplicates() ==> bars_after_update(bars, active).no_duplicates(),
{
    let r = retain_connected(bars, active);
    let a = added_monitors(bars, active);
    lemma_added_in_active(bars, active);
    lemma_active_covered(bars, active);
    lemma_retain_props(bars, active);
    lemma_concat_contains(r, a);
    if bars.no_duplicates() {
        assert forall|i: int, j: int|
            0 <= i < (r + a).len() && 0 <= j < (r + a).len() && i != j implies (r + a)[i] != (r
                + a)[j] by {
            if i < r.len() && j >= r.len() {
                assert((r + a)[i] == r[i]);
                assert((r + a)[j] == a[j - r.len()]);
                assert(r.contains(r[i]));
                assert(a.contains(a[j - r.len()]));
            } else if j < r.len() && i >= r.len() {
                assert((r + a)[j] == r[j]);
                assert((r + a)[i] == a[i - r.len()]);
                assert(r.contains(r[j]));
                assert(a.contains(a[i - r.len()]));
            } else if i < r.len() {
                assert(r[i] != r[j]);
            } else {
                assert(a[i - r.len()] != a[j - r.len()]);
            }
        }
    }
}

/// A second update against the same connected monitors changes nothing: no bar
/// is added and every bar stays.
pub proof fn lemma_update_idempotent(bars: Seq<u64>, active: Seq<u64>)
    ensures
        added_monitors(bars_after_update(bars, active), active) == Seq::<u64>::empty(),
        retain_connected(bars_after_update(bars, active), active) == bars_after_update(bars, active),
        bars_after_update(bars_after_update(bars, active), active) == bars_after_update(bars, active),
{
    let after = bars_after_update(bars, active);
    lemma_update_matches_monitors(bars, active);
    lemma_added_empty_when_covered(after, active);
    lemma_retain_all(after, active);
    assert(after + Seq::<u64>::empty() =~= after);
}

} // verus!
