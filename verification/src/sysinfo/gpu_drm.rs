//! Enumerating the graphics cards of a DRM class directory: which entries are cards, and in what order they are
//! reported. Listing the directory and reading each card's attribute files is the application's job.

use vstd::prelude::*;

use super::gpu::GpuInfo;
use super::gpu_sysfs::{CardDir, card_gpu, card_name, gpu_from_card_dir, is_card_name};
use crate::text::chars_of;

verus! {

/// Whether `a` sorts before `b` from position `i` on, comparing character by character, a proper prefix first.
pub open spec fn lt_from(a: Seq<char>, b: Seq<char>, i: int) -> bool
    decreases a.len() - i,
{
    if i >= b.len() {
        false
    } else if i >= a.len() {
        true
    } else if a[i] != b[i] {
        (a[i] as u32) < (b[i] as u32)
    } else {
        lt_from(a, b, i + 1)
    }
}

/// Whether the file name `a` sorts before `b`, as paths in one directory sort: by their characters in turn, which
/// is the order of their UTF-8 bytes, a proper prefix first.
pub open spec fn name_lt(a: Seq<char>, b: Seq<char>) -> bool {
    lt_from(a, b, 0)
}

/// Nothing sorts both before and after another name.
proof fn lemma_lt_asymmetric(a: Seq<char>, b: Seq<char>, i: int)
    requires
        0 <= i,
    ensures
        !(lt_from(a, b, i) && lt_from(b, a, i)),
    decreases a.len() - i,
{
    if i < a.len() && i < b.len() && a[i] == b[i] {
        lemma_lt_asymmetric(a, b, i + 1);
    }
}

/// Sorting before carries over from one name to a third.
proof fn lemma_lt_transitive(a: Seq<char>, b: Seq<char>, c: Seq<char>, i: int)
    requires
        0 <= i,
        lt_from(a, b, i),
        lt_from(b, c, i),
    ensures
        lt_from(a, c, i),
    decreases a.len() - i,
{
    if i < a.len() && i < b.len() && i < c.len() && a[i] == b[i] && b[i] == c[i] {
        lemma_lt_transitive(a, b, c, i + 1);
    }
}

/// Whether `a` sorts before `b`, deciding it by a scan over their common prefix.
fn name_before(a: &Vec<char>, b: &Vec<char>) -> (r: bool)
    ensures
        r == name_lt(a@, b@),
{
    let mut i: usize = 0;
    while i < a.len() && i < b.len() && a[i] == b[i]
        invariant
            i <= a@.len(),
            i <= b@.len(),
            lt_from(a@, b@, 0) == lt_from(a@, b@, i as int),
        decreases a@.len() - i,
    {
        assert(lt_from(a@, b@, i as int) == lt_from(a@, b@, i + 1));
        i += 1;
    }
    if i >= b.len() {
        false
    } else if i >= a.len() {
        true
    } else {
        (a[i] as u32) < (b[i] as u32)
    }
}

/// Whether `order` lists, once each, the positions of the entries of `entries` that are cards, in name order.
pub open spec fn cards_in_name_order(entries: Seq<(String, CardDir)>, order: Seq<int>) -> bool {
    &&& forall|a: int| 0 <= a < order.len() ==> 0 <= #[trigger] order[a] < entries.len() && card_name(
        entries[order[a]].0@,
    )
    &&& forall|k: int| 0 <= k < entries.len() && card_name(#[trigger] entries[k].0@) ==> order.contains(k)
    &&& forall|a: int, b: int| 0 <= a < b < order.len() ==> order[a] != order[b]
    &&& forall|a: int, b: int|
        0 <= a < b < order.len() ==> !name_lt(entries[#[trigger] order[b]].0@, entries[#[trigger] order[a]].0@)
}

/// The adapters the cards `cards` describe, in their order, leaving out those that are not GPUs.
pub open spec fn card_gpus(cards: Seq<CardDir>, pci_ids: Option<Seq<char>>) -> Seq<
    (Seq<char>, Option<Seq<char>>, Option<u64>),
>
    decreases cards.len(),
{
    if cards.len() == 0 {
        Seq::empty()
    } else {
        let rest = card_gpus(cards.drop_last(), pci_ids);
        match card_gpu(cards.last(), pci_ids) {
            Some(g) => rest.push(g),
            None => rest,
        }
    }
}

/// Whether the adapters `gpus` are, one for one, the ones `described` describes.
pub open spec fn describe_all(gpus: Seq<GpuInfo>, described: Seq<(Seq<char>, Option<Seq<char>>, Option<u64>)>) -> bool {
    &&& gpus.len() == described.len()
    &&& forall|i: int| 0 <= i < gpus.len() ==> (#[trigger] gpus[i]).describes(described[i].0, described[i].1, described[i].2)
}

/// The text of an optional database.
pub open spec fn pci_text(pci_ids: Option<&str>) -> Option<Seq<char>> {
    match pci_ids {
        Some(t) => Some(t@),
        None => None,
    }
}

/// Every graphics card among the entries of a DRM class directory — each a file name and what its card directory
/// holds — in name order, so `card0` reliably precedes `card1` whatever order the directory listed them in.
///
/// Connectors, render nodes and the `version` file are not cards (see [`card_name`]); a card that is not a GPU (see
/// [`card_gpu`]) is left out. `pci_ids` is the text of a `pci.ids` database, shared across every card.
pub fn gpus_from_cards(entries: &Vec<(String, CardDir)>, pci_ids: Option<&str>) -> (r: Vec<GpuInfo>)
    ensures
        exists|order: Seq<int>|
            cards_in_name_order(entries@, order) && describe_all(
                r@,
                card_gpus(order.map_values(|k: int| entries@[k].1), pci_text(pci_ids)),
            ),
{
    let n = entries.len();
    let mut names: Vec<Vec<char>> = Vec::new();
    let mut order: Vec<usize> = Vec::new();
    let mut i: usize = 0;
    while i < n
        invariant
            n == entries@.len(),
            i <= n,
            names@.len() == i,
            forall|k: int| 0 <= k < i ==> (#[trigger] names@[k])@ == entries@[k].0@,
            forall|a: int| 0 <= a < order@.len() ==> (#[trigger] order@[a]) < i && card_name(entries@[order@[a] as int].0@),
            forall|k: int| 0 <= k < i && card_name(#[trigger] entries@[k].0@) ==> order@.contains(k as usize),
            forall|a: int, b: int| 0 <= a < b < order@.len() ==> order@[a] != order@[b],
            forall|a: int, b: int|
                0 <= a < b < order@.len() ==> !name_lt(
                    entries@[#[trigger] order@[b] as int].0@,
                    entries@[#[trigger] order@[a] as int].0@,
                ),
        decreases n - i,
    {
        let name = chars_of(entries[i].0.as_str());
        if is_card_name(entries[i].0.as_str()) {
            let mut p: usize = 0;
            while p < order.len() && !name_before(&name, &names[order[p]])
                invariant
                    i < n == entries@.len(),
                    names@.len() == i,
                    name@ == entries@[i as int].0@,
                    forall|k: int| 0 <= k < i ==> (#[trigger] names@[k])@ == entries@[k].0@,
                    forall|a: int| 0 <= a < order@.len() ==> (#[trigger] order@[a]) < i,
                    p <= order@.len(),
                    forall|q: int| 0 <= q < p ==> !name_lt(name@, entries@[#[trigger] order@[q] as int].0@),
                decreases order@.len() - p,
            {
                p += 1;
            }
            let ghost before = order@;
            proof {
                if p < before.len() {
                    let stop = entries@[before[p as int] as int].0@;
                    assert(name_lt(name@, stop));
                    assert forall|q: int| p <= q < before.len() implies !name_lt(
                        entries@[#[trigger] before[q] as int].0@,
                        name@,
                    ) by {
                        let later = entries@[before[q] as int].0@;
                        if q == p {
                            lemma_lt_asymmetric(later, name@, 0);
                        } else {
                            assert(!name_lt(later, stop));
                            if name_lt(later, name@) {
                                lemma_lt_transitive(later, name@, stop, 0);
                            }
                        }
                    }
                }
            }
            order.insert(p, i);
            proof {
                let now = order@;
                assert(now == before.insert(p as int, i));
                assert forall|a: int, b: int| 0 <= a < b < now.len() implies !name_lt(
                    entries@[#[trigger] now[b] as int].0@,
                    entries@[#[trigger] now[a] as int].0@,
                ) by {
                    if b < p {
                        assert(now[a] == before[a] && now[b] == before[b]);
                    } else if b == p {
                        assert(now[a] == before[a]);
                    } else if a < p {
                        assert(now[a] == before[a] && now[b] == before[b - 1]);
                    } else if a == p {
                        assert(now[b] == before[b - 1]);
                    } else {
                        assert(now[a] == before[a - 1] && now[b] == before[b - 1]);
                    }
                }
                assert forall|a: int, b: int| 0 <= a < b < now.len() implies now[a] != now[b] by {
                    if b < p {
                        assert(now[a] == before[a] && now[b] == before[b]);
                    } else if b == p {
                        assert(now[a] == before[a]);
                    } else if a < p {
                        assert(now[a] == before[a] && now[b] == before[b - 1]);
                    } else if a == p {
                        assert(now[b] == before[b - 1]);
                    } else {
                        assert(now[a] == before[a - 1] && now[b] == before[b - 1]);
                    }
                }
                assert forall|a: int| 0 <= a < now.len() implies (#[trigger] now[a]) < i + 1 && card_name(
                    entries@[now[a] as int].0@,
                ) by {
                    if a < p {
                        assert(now[a] == before[a]);
                    } else if a > p {
                        assert(now[a] == before[a - 1]);
                    }
                }
                assert forall|k: int| 0 <= k < i + 1 && card_name(#[trigger] entries@[k].0@) implies now.contains(
                    k as usize,
                ) by {
                    if k < i {
                        let a = choose|a: int| 0 <= a < before.len() && before[a] == k as usize;
                        if a < p {
                            assert(now[a] == before[a]);
                        } else {
                            assert(now[a + 1] == before[a]);
                        }
                    } else {
                        assert(now[p as int] == i);
                    }
                }
            }
        }
        names.push(name);
        i += 1;
    }
    let ghost order_view = order@.map_values(|k: usize| k as int);
    let ghost cards = order_view.map_values(|k: int| entries@[k].1);
    let ghost pci = pci_text(pci_ids);
    let mut gpus: Vec<GpuInfo> = Vec::new();
    let mut a: usize = 0;
    while a < order.len()
        invariant
            a <= order@.len(),
            order_view == order@.map_values(|k: usize| k as int),
            cards == order_view.map_values(|k: int| entries@[k].1),
            forall|b: int| 0 <= b < order@.len() ==> (#[trigger] order@[b]) < entries@.len(),
            pci == pci_text(pci_ids),
            describe_all(gpus@, card_gpus(cards.subrange(0, a as int), pci)),
        decreases order@.len() - a,
    {
        let k = order[a];
        assert(cards.subrange(0, a + 1).drop_last() =~= cards.subrange(0, a as int));
        assert(cards.subrange(0, a + 1).last() == entries@[k as int].1);
        let ghost before = gpus@;
        match gpu_from_card_dir(&entries[k].1, pci_ids) {
            Some(g) => {
                gpus.push(g);
                assert(describe_all(gpus@, card_gpus(cards.subrange(0, a + 1), pci))) by {
                    assert(gpus@[before.len() as int] == g);
                    assert forall|j: int| 0 <= j < before.len() implies gpus@[j] == before[j] by {}
                }
            },
            None => {},
        }
        a += 1;
    }
    assert(cards.subrange(0, order@.len() as int) =~= cards);
    assert(cards_in_name_order(entries@, order_view)) by {
        assert forall|k: int| 0 <= k < entries@.len() && card_name(#[trigger] entries@[k].0@) implies order_view.contains(k) by {
            let a = choose|a: int| 0 <= a < order@.len() && order@[a] == k as usize;
            assert(order_view[a] == k);
        }
        assert forall|a: int, b: int| 0 <= a < b < order_view.len() implies !name_lt(
            entries@[#[trigger] order_view[b]].0@,
            entries@[#[trigger] order_view[a]].0@,
        ) by {
            assert(order_view[a] == order@[a] as int);
            assert(order_view[b] == order@[b] as int);
        }
    }
    gpus
}

} // verus!
