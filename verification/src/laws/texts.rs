//! What the operations on texts keep and take away.

use crate::text::{
    ascii_lower, fields, joined, lower, placed_text, sorted_texts, text_less, trim_back,
    trim_front, trimmed, white, without_repeats,
};
use crate::text;
use vstd::prelude::*;

verus! {

/// The order of texts is that of the first characters in which they differ; a
/// text stands before those that it begins.
pub proof fn law_text_order(a: Seq<char>, b: Seq<char>, k: int)
    requires
        0 <= k <= a.len(),
        k <= b.len(),
        a.take(k) == b.take(k),
        k == a.len() || k == b.len() || a[k] != b[k],
    ensures
        k == b.len() ==> !text_less(a, b),
        k == a.len() && k < b.len() ==> text_less(a, b),
        k < a.len() && k < b.len() ==> (text_less(a, b) <==> a[k] < b[k]),
    decreases k,
{
    if k > 0 {
        assert(a[0] == a.take(k)[0]);
        assert(b[0] == b.take(k)[0]);
        let x = a.drop_first();
        let y = b.drop_first();
        assert(x.take(k - 1) =~= y.take(k - 1)) by {
            assert forall|i: int| 0 <= i < k - 1 implies x[i] == y[i] by {
                assert(x[i] == a.take(k)[i + 1]);
                assert(y[i] == b.take(k)[i + 1]);
            }
        }
        law_text_order(x, y, k - 1);
    }
}

proof fn lemma_trim_front(s: Seq<char>) -> (k: int)
    ensures
        0 <= k <= s.len(),
        trim_front(s) == s.skip(k),
        forall|i: int| 0 <= i < k ==> white(#[trigger] s[i]),
        k < s.len() ==> !white(s[k]),
    decreases s.len(),
{
    if s.len() > 0 && white(s[0]) {
        let t = s.drop_first();
        let k = lemma_trim_front(t);
        assert(t.skip(k) =~= s.skip(k + 1));
        assert forall|i: int| 0 <= i < k + 1 implies white(#[trigger] s[i]) by {
            if i > 0 {
                assert(t[i - 1] == s[i]);
            }
        }
        k + 1
    } else {
        assert(s.skip(0) =~= s);
        0
    }
}

proof fn lemma_trim_back(s: Seq<char>) -> (k: int)
    ensures
        0 <= k <= s.len(),
        trim_back(s) == s.take(k),
        forall|i: int| k <= i < s.len() ==> white(#[trigger] s[i]),
        k > 0 ==> !white(s[k - 1]),
    decreases s.len(),
{
    if s.len() > 0 && white(s.last()) {
        let t = s.drop_last();
        let k = lemma_trim_back(t);
        assert(t.take(k) =~= s.take(k));
        assert forall|i: int| k <= i < s.len() implies white(#[trigger] s[i]) by {
            if i < t.len() {
                assert(t[i] == s[i]);
            }
        }
        k
    } else {
        assert(s.take(s.len() as int) =~= s);
        s.len() as int
    }
}

/// A trimmed text is the part of the text between two places, before and behind
/// which all is white, and neither begins nor ends with white space.
pub proof fn law_trimmed(s: Seq<char>)
    ensures
        exists|i: int, j: int|
            0 <= i <= j <= s.len() && trimmed(s) == #[trigger] s.subrange(i, j) && (forall|k: int|
                (0 <= k < i || j <= k < s.len()) ==> white(#[trigger] s[k])),
        trimmed(s).len() > 0 ==> !white(trimmed(s)[0]) && !white(trimmed(s).last()),
{
    let i = lemma_trim_front(s);
    let t = trim_front(s);
    let n = lemma_trim_back(t);
    assert(t.take(n) =~= s.subrange(i, i + n));
    assert forall|k: int| (0 <= k < i || i + n <= k < s.len()) implies white(#[trigger] s[k]) by {
        if i + n <= k {
            assert(t[k - i] == s[k]);
        }
    }
    assert(trimmed(s) == s.subrange(i, i + n));
}

/// Joined by its separator again, a text's fields are the text, and none of them
/// holds the separator.
pub proof fn law_fields(s: Seq<char>, c: char)
    ensures
        fields(s, c).len() > 0,
        joined(fields(s, c), seq![c]) == s,
        forall|i: int|
            0 <= i < fields(s, c).len() ==> !(#[trigger] fields(s, c)[i]).contains(c),
    decreases s.len(),
{
    let sep = seq![c];
    if s.len() == 0 {
        assert(joined(fields(s, c), sep) =~= s);
    } else {
        let p = s.drop_last();
        law_fields(p, c);
        let rest = fields(p, c);
        let all = fields(s, c);
        assert(s =~= p.push(s.last()));
        if s.last() == c {
            assert(all.drop_last() =~= rest);
            assert(all.len() > 1);
            assert(all.last() =~= Seq::<char>::empty());
            assert(joined(all, sep) =~= joined(rest, sep) + sep + Seq::<char>::empty());
            assert(joined(all, sep) =~= s);
            assert forall|i: int| 0 <= i < all.len() implies !(#[trigger] all[i]).contains(c) by {
                if i < rest.len() {
                    assert(all[i] == rest[i]);
                }
            }
        } else {
            assert(all.drop_last() =~= rest.drop_last());
            assert(all.last() == rest.last().push(s.last()));
            if rest.len() == 1 {
                assert(joined(all, sep) =~= rest[0].push(s.last()));
            } else {
                assert(joined(all, sep) =~= joined(rest.drop_last(), sep) + sep
                    + rest.last().push(s.last()));
                assert(joined(all, sep) =~= joined(rest, sep).push(s.last()));
            }
            assert(joined(all, sep) =~= s);
            assert forall|i: int| 0 <= i < all.len() implies !(#[trigger] all[i]).contains(c) by {
                if i < rest.len() - 1 {
                    assert(all[i] == rest[i]);
                } else {
                    let last = rest.last();
                    assert(!rest[rest.len() - 1].contains(c));
                    if all[i].contains(c) {
                        let k = choose|k: int| 0 <= k < all[i].len() && all[i][k] == c;
                        assert(k < last.len());
                        assert(last[k] == c);
                    }
                }
            }
        }
    }
}

/// The lower-case form of a letter from `A` to `Z` is the letter thirty-two
/// places on; all else stays.
pub proof fn law_ascii_lower(s: Seq<char>, i: int)
    requires
        0 <= i < s.len(),
    ensures
        ascii_lower(s).len() == s.len(),
        'A' <= s[i] <= 'Z' ==> ascii_lower(s)[i] as u32 == s[i] as u32 + 32,
        !('A' <= s[i] <= 'Z') ==> ascii_lower(s)[i] == s[i],
{
    assert(ascii_lower(s)[i] == lower(s[i]));
}

proof fn lemma_placed(sorted: Seq<Seq<char>>, s: Seq<char>)
    requires
        forall|i: int, j: int|
            0 <= i < j < sorted.len() ==> !text_less(#[trigger] sorted[j], #[trigger] sorted[i]),
    ensures
        placed_text(sorted, s).to_multiset() == sorted.to_multiset().insert(s),
        forall|i: int, j: int|
            0 <= i < j < placed_text(sorted, s).len() ==> !text_less(
                #[trigger] placed_text(sorted, s)[j],
                #[trigger] placed_text(sorted, s)[i],
            ),
        forall|i: int|
            0 <= i < placed_text(sorted, s).len() ==> (#[trigger] placed_text(sorted, s)[i]) == s
                || sorted.contains(placed_text(sorted, s)[i]),
    decreases sorted.len(),
{
    broadcast use vstd::seq_lib::group_to_multiset_ensures;

    let r = placed_text(sorted, s);
    if sorted.len() > 0 && text_less(s, sorted.last()) {
        let low = sorted.drop_last();
        let last = sorted.last();
        assert(sorted =~= low.push(last));
        lemma_placed(low, s);
        let p = placed_text(low, s);
        assert(r == p.push(last));
        assert(r.to_multiset() =~= sorted.to_multiset().insert(s));
        assert forall|i: int| 0 <= i < r.len() implies (#[trigger] r[i]) == s || sorted.contains(
            r[i],
        ) by {
            if i < p.len() {
                assert(r[i] == p[i]);
                if p[i] != s {
                    let k = choose|k: int| 0 <= k < low.len() && low[k] == p[i];
                    assert(sorted[k] == p[i]);
                }
            } else {
                assert(sorted[sorted.len() - 1] == last);
            }
        }
        assert forall|i: int, j: int| 0 <= i < j < r.len() implies !text_less(
            #[trigger] r[j],
            #[trigger] r[i],
        ) by {
            if j < p.len() {
                assert(r[i] == p[i] && r[j] == p[j]);
            } else {
                assert(r[j] == last && r[i] == p[i]);
                if p[i] == s {
                    text::law_text_order_total(s, last);
                } else {
                    let k = choose|k: int| 0 <= k < low.len() && low[k] == p[i];
                    assert(sorted[k] == p[i]);
                    assert(sorted[sorted.len() - 1] == last);
                }
            }
        }
    } else {
        assert(r == sorted.push(s));
        assert forall|i: int, j: int| 0 <= i < j < r.len() implies !text_less(
            #[trigger] r[j],
            #[trigger] r[i],
        ) by {
            if j < sorted.len() {
                assert(r[i] == sorted[i] && r[j] == sorted[j]);
            } else {
                assert(r[j] == s && r[i] == sorted[i]);
                let last = sorted.last();
                if i < sorted.len() - 1 {
                    assert(!text_less(sorted[sorted.len() - 1], sorted[i]));
                    if text_less(s, sorted[i]) {
                        text::law_text_order_total(last, sorted[i]);
                        if last != sorted[i] {
                            text::law_text_order_transitive(s, sorted[i], last);
                        }
                    }
                }
            }
        }
    }
}

/// A sorted list holds the same texts as often, none behind one that comes after
/// it.
pub proof fn law_sorted_texts(list: Seq<Seq<char>>)
    ensures
        sorted_texts(list).to_multiset() == list.to_multiset(),
        forall|i: int, j: int|
            0 <= i < j < sorted_texts(list).len() ==> !text_less(
                #[trigger] sorted_texts(list)[j],
                #[trigger] sorted_texts(list)[i],
            ),
    decreases list.len(),
{
    broadcast use vstd::seq_lib::group_to_multiset_ensures;

    if list.len() > 0 {
        law_sorted_texts(list.drop_last());
        lemma_placed(sorted_texts(list.drop_last()), list.last());
        assert(list =~= list.drop_last().push(list.last()));
        assert(sorted_texts(list).to_multiset() =~= list.to_multiset());
    }
}

/// Without repeats a list holds the same texts, and no text twice in a row.
pub proof fn law_without_repeats(list: Seq<Seq<char>>, s: Seq<char>)
    ensures
        without_repeats(list).contains(s) <==> list.contains(s),
        forall|i: int|
            0 <= i < without_repeats(list).len() - 1 ==> (#[trigger] without_repeats(list)[i])
                != without_repeats(list)[i + 1],
        list.len() > 0 ==> without_repeats(list).len() > 0 && without_repeats(list).last()
            == list.last(),
    decreases list.len(),
{
    if list.len() > 0 {
        let p = list.drop_last();
        law_without_repeats(p, s);
        let r = without_repeats(p);
        let all = without_repeats(list);
        assert(list.contains(s) <==> p.contains(s) || list.last() == s) by {
            if list.contains(s) {
                let i = choose|i: int| 0 <= i < list.len() && list[i] == s;
                if i < p.len() {
                    assert(p[i] == s);
                }
            }
            if p.contains(s) {
                let i = choose|i: int| 0 <= i < p.len() && p[i] == s;
                assert(list[i] == s);
            }
            if list.last() == s {
                assert(list[list.len() - 1] == s);
            }
        }
        if list.len() >= 2 && list[list.len() - 2] == list.last() {
            assert(p.last() == list.last());
            if list.last() == s {
                assert(p[p.len() - 1] == s);
            }
        } else {
            assert(all == r.push(list.last()));
            assert(all.contains(s) <==> r.contains(s) || list.last() == s) by {
                if all.contains(s) {
                    let i = choose|i: int| 0 <= i < all.len() && all[i] == s;
                    if i < r.len() {
                        assert(r[i] == s);
                    }
                }
                if r.contains(s) {
                    let i = choose|i: int| 0 <= i < r.len() && r[i] == s;
                    assert(all[i] == s);
                }
                if list.last() == s {
                    assert(all[all.len() - 1] == s);
                }
            }
            assert forall|i: int| 0 <= i < all.len() - 1 implies (#[trigger] all[i]) != all[i
                + 1] by {
                if i < r.len() - 1 {
                    assert(r[i] != r[i + 1]);
                } else {
                    assert(p.len() > 0);
                    assert(p.last() == list[list.len() - 2]);
                }
            }
        }
    }
}

} // verus!
