//! Listing things by name.

use crate::config::{AppProfile, AppProfileView, SubscriptionConfig, SubscriptionConfigView};
use crate::config;
use crate::text;
use vstd::prelude::*;

verus! {

/// A place put into an order of places, behind all whose name does not come
/// after its own.
pub open spec fn slotted(order: Seq<int>, names: Seq<Seq<char>>, i: int) -> Seq<int>
    decreases order.len(),
{
    if order.len() > 0 && text::text_less(names[i], names[order.last()]) {
        slotted(order.drop_last(), names, i).push(order.last())
    } else {
        order.push(i)
    }
}

/// The first `n` places in the order of their names; places of one name keep
/// their order.
pub open spec fn order_of(names: Seq<Seq<char>>, n: nat) -> Seq<int>
    decreases n,
{
    if n == 0 {
        Seq::empty()
    } else {
        slotted(order_of(names, (n - 1) as nat), names, n - 1)
    }
}

/// The places of names in the order of the names.
pub open spec fn name_order(names: Seq<Seq<char>>) -> Seq<int> {
    order_of(names, names.len())
}

/// Things in an order of their places.
pub open spec fn arranged<T>(list: Seq<T>, order: Seq<int>) -> Seq<T> {
    order.map_values(|i: int| list[i])
}

/// Each of the first `n` places stands in the order once.
pub open spec fn complete(order: Seq<int>, n: nat) -> bool {
    &&& order.len() == n
    &&& order.no_duplicates()
    &&& forall|i: int| #[trigger] order.contains(i) <==> 0 <= i < n
}

/// No place stands before one whose name is less.
pub open spec fn ordered(order: Seq<int>, names: Seq<Seq<char>>) -> bool {
    forall|a: int, b: int|
        0 <= a < b < order.len() ==> !text::text_less(
            names[#[trigger] order[b]],
            names[#[trigger] order[a]],
        )
}

proof fn lemma_slotted(order: Seq<int>, names: Seq<Seq<char>>, i: int)
    requires
        ordered(order, names),
        !order.contains(i),
        order.no_duplicates(),
    ensures
        ordered(slotted(order, names, i), names),
        slotted(order, names, i).len() == order.len() + 1,
        slotted(order, names, i).no_duplicates(),
        forall|k: int|
            #[trigger] slotted(order, names, i).contains(k) <==> k == i || order.contains(k),
    decreases order.len(),
{
    let p = slotted(order, names, i);
    if order.len() > 0 && text::text_less(names[i], names[order.last()]) {
        let rest = order.drop_last();
        let last = order.last();
        assert(order =~= rest.push(last));
        assert forall|k: int| order.contains(k) <==> #[trigger] rest.contains(k) || k == last by {
            if order.contains(k) {
                let at = order.index_of(k);
                if at < rest.len() {
                    assert(rest[at] == k);
                }
            }
            if rest.contains(k) {
                let at = rest.index_of(k);
                assert(order[at] == k);
            }
            if k == last {
                assert(order[order.len() - 1] == k);
            }
        }
        assert forall|a: int, b: int| 0 <= a < b < rest.len() implies !text::text_less(
            names[#[trigger] rest[b]],
            names[#[trigger] rest[a]],
        ) by {
            assert(rest[a] == order[a] && rest[b] == order[b]);
        }
        lemma_slotted(rest, names, i);
        let q = slotted(rest, names, i);
        assert(!rest.contains(last)) by {
            if rest.contains(last) {
                let at = rest.index_of(last);
                assert(order[at] == order[order.len() - 1]);
            }
        }
        assert(last != i) by {
            assert(order[order.len() - 1] == last);
        }
        assert(!q.contains(last));
        assert forall|k: int| #[trigger] p.contains(k) <==> k == i || order.contains(k) by {
            if p.contains(k) {
                let at = p.index_of(k);
                if at < q.len() {
                    assert(q[at] == k);
                    assert(q.contains(k));
                }
            }
            if k == last {
                assert(p[p.len() - 1] == k);
            } else if k == i || order.contains(k) {
                assert(q.contains(k));
                let at = q.index_of(k);
                assert(p[at] == k);
            }
        }
        assert forall|a: int, b: int| 0 <= a < p.len() && 0 <= b < p.len() && a != b implies p[a]
            != p[b] by {
            if a < q.len() && b < q.len() {
                assert(p[a] == q[a] && p[b] == q[b]);
            } else if a < q.len() {
                assert(q.contains(q[a]));
            } else {
                assert(q.contains(q[b]));
            }
        }
        assert forall|a: int, b: int| 0 <= a < b < p.len() implies !text::text_less(
            names[#[trigger] p[b]],
            names[#[trigger] p[a]],
        ) by {
            assert(p[a] == q[a]);
            if b < q.len() {
                assert(p[b] == q[b]);
            } else {
                assert(q.contains(q[a]));
                if q[a] == i {
                    text::law_text_order_total(names[i], names[last]);
                } else {
                    let at = rest.index_of(q[a]);
                    assert(order[at] == q[a]);
                    assert(order[order.len() - 1] == last);
                }
            }
        }
    } else {
        assert forall|k: int| #[trigger] p.contains(k) <==> k == i || order.contains(k) by {
            if p.contains(k) {
                let at = p.index_of(k);
                if at < order.len() {
                    assert(order[at] == k);
                }
            }
            if k == i {
                assert(p[p.len() - 1] == k);
            } else if order.contains(k) {
                let at = order.index_of(k);
                assert(p[at] == k);
            }
        }
        assert forall|a: int, b: int| 0 <= a < p.len() && 0 <= b < p.len() && a != b implies p[a]
            != p[b] by {
            if a < order.len() && b < order.len() {
                assert(p[a] == order[a] && p[b] == order[b]);
            } else if a < order.len() {
                assert(order.contains(order[a]));
            } else {
                assert(order.contains(order[b]));
            }
        }
        assert forall|a: int, b: int| 0 <= a < b < p.len() implies !text::text_less(
            names[#[trigger] p[b]],
            names[#[trigger] p[a]],
        ) by {
            assert(p[a] == order[a]);
            if b < order.len() {
                assert(p[b] == order[b]);
            } else if text::text_less(names[i], names[order[a]]) {
                let last = order.last();
                assert(order[order.len() - 1] == last);
                text::law_text_order_total(names[last], names[order[a]]);
                if names[last] != names[order[a]] {
                    assert(a < order.len() - 1);
                    assert(!text::text_less(names[last], names[order[a]]));
                    text::law_text_order_transitive(names[i], names[order[a]], names[last]);
                }
            }
        }
    }
}

proof fn lemma_order_of(names: Seq<Seq<char>>, n: nat)
    ensures
        complete(order_of(names, n), n),
        ordered(order_of(names, n), names),
    decreases n,
{
    if n > 0 {
        lemma_order_of(names, (n - 1) as nat);
        let before = order_of(names, (n - 1) as nat);
        assert(!before.contains(n - 1));
        lemma_slotted(before, names, n - 1);
    }
}

/// Every place stands in the order of the names once, and no place stands
/// before one whose name is less.
pub proof fn law_names_are_ordered(names: Seq<Seq<char>>)
    ensures
        complete(name_order(names), names.len()),
        ordered(name_order(names), names),
{
    lemma_order_of(names, names.len());
}

fn slot(order: &mut Vec<usize>, names: &Vec<String>, i: usize)
    requires
        i < names@.len(),
        forall|k: int| 0 <= k < old(order)@.len() ==> #[trigger] old(order)@[k] < names@.len(),
    ensures
        places(final(order)@) == slotted(places(old(order)@), text::texts(names@), i as int),
{
    let ghost all = text::texts(names@);
    let ghost start = places(order@);
    let mut at: usize = order.len();
    assert(start.take(at as int) =~= start);
    assert(slotted(start, all, i as int) =~= slotted(start.take(at as int), all, i as int)
        + start.skip(at as int));
    while at > 0 && text::is_less(names[i].as_str(), names[order[at - 1]].as_str())
        invariant
            i < names@.len(),
            at <= order@.len(),
            all == text::texts(names@),
            start == places(order@),
            forall|k: int| 0 <= k < order@.len() ==> #[trigger] order@[k] < names@.len(),
            slotted(start, all, i as int) == slotted(start.take(at as int), all, i as int)
                + start.skip(at as int),
        decreases at,
    {
        proof {
            let t = start.take(at as int);
            assert(t.last() == order@[at - 1] as int);
            assert(all[t.last()] == names@[order@[at - 1] as int]@);
            assert(t.drop_last() =~= start.take(at - 1));
            assert(slotted(t.drop_last(), all, i as int).push(t.last()) + start.skip(at as int)
                =~= slotted(start.take(at - 1), all, i as int) + start.skip(at - 1));
        }
        at -= 1;
    }
    proof {
        let t = start.take(at as int);
        if at > 0 {
            assert(t.last() == order@[at - 1] as int);
            assert(all[t.last()] == names@[order@[at - 1] as int]@);
        }
        assert(slotted(t, all, i as int) == t.push(i as int));
    }
    order.insert(at, i);
    assert(places(order@) =~= start.take(at as int).push(i as int) + start.skip(at as int));
}

pub open spec fn places(v: Seq<usize>) -> Seq<int> {
    v.map_values(|i: usize| i as int)
}

/// The places of names in the order of the names.
pub fn sort_names(names: &Vec<String>) -> (r: Vec<usize>)
    ensures
        places(r@) == name_order(text::texts(names@)),
        forall|k: int| 0 <= k < r@.len() ==> #[trigger] r@[k] < names@.len(),
{
    let ghost all = text::texts(names@);
    let mut r: Vec<usize> = Vec::new();
    let mut i: usize = 0;
    assert(places(r@) =~= order_of(all, 0));
    while i < names.len()
        invariant
            i <= names@.len(),
            all == text::texts(names@),
            all.len() == names@.len(),
            places(r@) == order_of(all, i as nat),
            forall|k: int| 0 <= k < r@.len() ==> #[trigger] r@[k] < i,
        decreases names@.len() - i,
    {
        slot(&mut r, names, i);
        i += 1;
        proof {
            lemma_order_of(all, i as nat);
            assert forall|k: int| 0 <= k < r@.len() implies #[trigger] r@[k] < i by {
                assert(places(r@)[k] == r@[k] as int);
                assert(order_of(all, i as nat).contains(places(r@)[k]));
            }
        }
    }
    r
}

/// The names of subscriptions.
pub open spec fn subscription_names(list: Seq<SubscriptionConfigView>) -> Seq<Seq<char>> {
    list.map_values(|s: SubscriptionConfigView| s.name)
}

/// Subscriptions in the order of their names.
pub open spec fn subscriptions_by_name(list: Seq<SubscriptionConfigView>) -> Seq<
    SubscriptionConfigView,
> {
    arranged(list, name_order(subscription_names(list)))
}

/// Subscriptions in the order of their names.
pub fn sort_subscriptions(list: &Vec<SubscriptionConfig>) -> (r: Vec<SubscriptionConfig>)
    ensures
        config::subscription_config_views(r@) == subscriptions_by_name(
            config::subscription_config_views(list@),
        ),
{
    let ghost views = config::subscription_config_views(list@);
    let mut names: Vec<String> = Vec::new();
    let mut i: usize = 0;
    while i < list.len()
        invariant
            i <= list@.len(),
            names@.len() == i,
            forall|k: int| 0 <= k < i ==> (#[trigger] names@[k])@ == list@[k]@.name,
        decreases list@.len() - i,
    {
        names.push(list[i].name.clone());
        i += 1;
    }
    assert(text::texts(names@) =~= subscription_names(views));
    let order = sort_names(&names);
    let mut r: Vec<SubscriptionConfig> = Vec::new();
    let mut k: usize = 0;
    while k < order.len()
        invariant
            k <= order@.len(),
            r@.len() == k,
            names@.len() == list@.len(),
            forall|j: int| 0 <= j < order@.len() ==> #[trigger] order@[j] < names@.len(),
            forall|j: int| 0 <= j < k ==> (#[trigger] r@[j])@ == list@[order@[j] as int]@,
        decreases order@.len() - k,
    {
        r.push(list[order[k]].clone());
        k += 1;
    }
    proof {
        let want = subscriptions_by_name(views);
        assert(places(order@).len() == order@.len());
        assert forall|j: int| 0 <= j < r@.len() implies (#[trigger] r@[j])@ == want[j] by {
            assert(places(order@)[j] == order@[j] as int);
            assert(views[order@[j] as int] == list@[order@[j] as int]@);
        }
        assert(config::subscription_config_views(r@) =~= want);
    }
    r
}

/// Ordering subscriptions keeps each of them and adds none, and none stands
/// before one whose name is less.
pub proof fn law_subscriptions_are_listed_by_name(list: Seq<SubscriptionConfigView>)
    ensures
        subscriptions_by_name(list).to_multiset() == list.to_multiset(),
        subscriptions_by_name(list).len() == list.len(),
        forall|a: int, b: int|
            0 <= a < b < list.len() ==> !text::text_less(
                (#[trigger] subscriptions_by_name(list)[b]).name,
                (#[trigger] subscriptions_by_name(list)[a]).name,
            ),
{
    let names = subscription_names(list);
    let order = name_order(names);
    law_names_are_ordered(names);
    lemma_arranged(list, order);
    let shown = subscriptions_by_name(list);
    assert forall|a: int, b: int| 0 <= a < b < list.len() implies !text::text_less(
        (#[trigger] shown[b]).name,
        (#[trigger] shown[a]).name,
    ) by {
        assert(order.contains(order[a]) && order.contains(order[b]));
        assert(names[order[a]] == shown[a].name && names[order[b]] == shown[b].name);
    }
}

proof fn lemma_arranged<T>(list: Seq<T>, order: Seq<int>)
    requires
        complete(order, list.len()),
    ensures
        arranged(list, order).to_multiset() == list.to_multiset(),
        arranged(list, order).len() == list.len(),
    decreases list.len(),
{
    broadcast use vstd::seq_lib::group_to_multiset_ensures;

    let a = arranged(list, order);
    if list.len() > 0 {
        let last = list.len() - 1;
        assert(order.contains(last));
        let at = order.index_of(last);
        let rest = order.remove(at);
        let fewer = list.drop_last();
        assert forall|i: int| #[trigger] rest.contains(i) <==> 0 <= i < fewer.len() by {
            if rest.contains(i) {
                let k = rest.index_of(i);
                let j = if k < at {
                    k
                } else {
                    k + 1
                };
                assert(order[j] == i);
                assert(order.contains(i));
                assert(order[j] != order[at]);
            }
            if 0 <= i < fewer.len() {
                assert(order.contains(i));
                let j = order.index_of(i);
                assert(j != at);
                if j < at {
                    assert(rest[j] == i);
                } else {
                    assert(rest[j - 1] == i);
                }
            }
        }
        assert(rest.no_duplicates()) by {
            assert forall|x: int, y: int|
                0 <= x < rest.len() && 0 <= y < rest.len() && x != y implies rest[x] != rest[y] by {
                let u = if x < at {
                    x
                } else {
                    x + 1
                };
                let w = if y < at {
                    y
                } else {
                    y + 1
                };
                assert(order[u] == rest[x] && order[w] == rest[y]);
            }
        }
        lemma_arranged(fewer, rest);
        let b = arranged(fewer, rest);
        assert(a.remove(at) =~= b) by {
            assert forall|k: int| 0 <= k < b.len() implies #[trigger] a.remove(at)[k] == b[k] by {
                assert(rest.contains(rest[k]));
            }
        }
        assert(a[at] == list.last());
        assert(b.insert(at, list.last()) =~= a);
        assert(list =~= fewer.push(list.last()));
        assert(a.to_multiset() =~= list.to_multiset());
    } else {
        assert(a =~= list);
    }
}

/// The names of application profiles.
pub open spec fn profile_names(list: Seq<AppProfileView>) -> Seq<Seq<char>> {
    list.map_values(|p: AppProfileView| p.name)
}

/// Application profiles in the order of their names.
pub open spec fn profiles_by_name(list: Seq<AppProfileView>) -> Seq<AppProfileView> {
    arranged(list, name_order(profile_names(list)))
}

/// Application profiles in the order of their names.
pub fn sort_profiles(list: &Vec<AppProfile>) -> (r: Vec<AppProfile>)
    ensures
        config::app_profile_views(r@) == profiles_by_name(config::app_profile_views(list@)),
{
    let ghost views = config::app_profile_views(list@);
    let mut names: Vec<String> = Vec::new();
    let mut i: usize = 0;
    while i < list.len()
        invariant
            i <= list@.len(),
            names@.len() == i,
            forall|k: int| 0 <= k < i ==> (#[trigger] names@[k])@ == list@[k]@.name,
        decreases list@.len() - i,
    {
        names.push(list[i].name.clone());
        i += 1;
    }
    assert(text::texts(names@) =~= profile_names(views));
    let order = sort_names(&names);
    let mut r: Vec<AppProfile> = Vec::new();
    let mut k: usize = 0;
    while k < order.len()
        invariant
            k <= order@.len(),
            r@.len() == k,
            names@.len() == list@.len(),
            forall|j: int| 0 <= j < order@.len() ==> #[trigger] order@[j] < names@.len(),
            forall|j: int| 0 <= j < k ==> (#[trigger] r@[j])@ == list@[order@[j] as int]@,
        decreases order@.len() - k,
    {
        r.push(list[order[k]].clone());
        k += 1;
    }
    proof {
        let want = profiles_by_name(views);
        assert(places(order@).len() == order@.len());
        assert forall|j: int| 0 <= j < r@.len() implies (#[trigger] r@[j])@ == want[j] by {
            assert(places(order@)[j] == order@[j] as int);
            assert(views[order@[j] as int] == list@[order@[j] as int]@);
        }
        assert(config::app_profile_views(r@) =~= want);
    }
    r
}

} // verus!
