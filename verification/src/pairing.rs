//! Pairing the items of two lists of one length, one to one.

use vstd::prelude::*;
use vstd::relations::injective_on;
use vstd::set_lib::{lemma_int_range, lemma_len_subset, lemma_map_size, set_int_range};

verus! {

// --- Models -------------------------------------------------------------

/// Whether `pairing` gives each of `n` items a partner of its own.
pub open spec fn is_pairing(pairing: Seq<int>, n: nat) -> bool {
    &&& pairing.len() == n
    &&& forall|i: int| 0 <= i < n ==> 0 <= #[trigger] pairing[i] < n
    &&& forall|i: int, j: int| 0 <= i < j < n ==> #[trigger] pairing[i] != #[trigger] pairing[j]
}

/// Whether the item may have that partner.
pub open spec fn fits(table: Seq<Vec<bool>>, item: int, partner: int) -> bool {
    table[item]@[partner]
}

/// Whether there is a line for each item, and an entry in it for each partner.
pub open spec fn is_square(table: Seq<Vec<bool>>) -> bool {
    forall|i: int| 0 <= i < table.len() ==> (#[trigger] table[i])@.len() == table.len()
}

/// Whether each item can have a fitting partner of its own.
pub open spec fn can_pair(table: Seq<Vec<bool>>) -> bool {
    exists|pairing: Seq<int>| #[trigger]
        is_pairing(pairing, table.len()) && forall|i: int|
            0 <= i < table.len() ==> #[trigger] fits(table, i, pairing[i])
}

// --- The state of the search ---------------------------------------------------

/// Whether the partners that are taken fit the items that took them.
spec fn is_sound(table: Seq<Vec<bool>>, taken: Seq<Option<usize>>) -> bool {
    &&& taken.len() == table.len()
    &&& forall|j: int|
        0 <= j < taken.len() && (#[trigger] taken[j]) is Some ==> taken[j]->0 < table.len() && fits(
            table,
            taken[j]->0 as int,
            j,
        )
}

/// Whether no item took two of the partners that were not tried.
spec fn is_apart(taken: Seq<Option<usize>>, tried: Seq<bool>) -> bool {
    forall|i: int, j: int|
        0 <= i < j < taken.len() && !tried[i] && !tried[j] && (#[trigger] taken[i]) is Some
            ==> taken[i] != #[trigger] taken[j]
}

/// Whether the item took one of the partners that were not tried.
spec fn has_partner(taken: Seq<Option<usize>>, tried: Seq<bool>, item: int) -> bool {
    exists|j: int|
        0 <= j < taken.len() && !tried[j] && (#[trigger] taken[j]) is Some && taken[j]->0 == item
}

/// Whether every partner that fits the item was tried.
spec fn is_exhausted(table: Seq<Vec<bool>>, tried: Seq<bool>, item: int) -> bool {
    forall|j: int| 0 <= j < table.len() && #[trigger] fits(table, item, j) ==> tried[j]
}

/// The number of partners that were not tried.
spec fn untried(tried: Seq<bool>) -> nat
    decreases tried.len(),
{
    if tried.len() == 0 {
        0
    } else {
        untried(tried.drop_last()) + if tried.last() {
            0nat
        } else {
            1nat
        }
    }
}

/// Trying further partners leaves fewer.
proof fn lemma_untried(before: Seq<bool>, after: Seq<bool>)
    requires
        before.len() == after.len(),
        forall|j: int| 0 <= j < before.len() && #[trigger] before[j] ==> after[j],
    ensures
        untried(after) <= untried(before),
        (exists|j: int| 0 <= j < before.len() && !before[j] && #[trigger] after[j]) ==> untried(
            after,
        ) < untried(before),
    decreases before.len(),
{
    if before.len() > 0 {
        let (a, b) = (before.drop_last(), after.drop_last());
        assert forall|j: int| 0 <= j < a.len() && #[trigger] a[j] implies b[j] by {
            assert(before[j]);
        }
        lemma_untried(a, b);
        assert(before.last() ==> after.last()) by {
            assert(before[before.len() - 1] ==> after[before.len() - 1]);
        }
        if exists|j: int| 0 <= j < before.len() && !before[j] && #[trigger] after[j] {
            let j = choose|j: int| 0 <= j < before.len() && !before[j] && #[trigger] after[j];
            if j < a.len() {
                assert(!a[j] && b[j]);
            }
        }
    }
}

/// An item that nothing is left for: the partners that were tried are all
/// taken, and the items that took them fit no other.
proof fn lemma_nothing_left(
    table: Seq<Vec<bool>>,
    taken: Seq<Option<usize>>,
    none: Seq<bool>,
    tried: Seq<bool>,
    item: int,
)
    requires
        0 <= item < table.len(),
        tried.len() == table.len(),
        none.len() == table.len(),
        forall|j: int| 0 <= j < none.len() ==> !(#[trigger] none[j]),
        is_sound(table, taken),
        is_apart(taken, none),
        !has_partner(taken, none, item),
        is_exhausted(table, tried, item),
        forall|j: int|
            0 <= j < tried.len() && #[trigger] tried[j] ==> taken[j] is Some && is_exhausted(
                table,
                tried,
                taken[j]->0 as int,
            ),
    ensures
        !can_pair(table),
{
    if can_pair(table) {
        let n = table.len();
        let pairing = choose|pairing: Seq<int>| #[trigger]
            is_pairing(pairing, n) && forall|i: int|
                0 <= i < n ==> #[trigger] fits(table, i, pairing[i]);
        let all = set_int_range(0, n as int);
        let used = Set::new(|j: int| 0 <= j < n && tried[j]);
        lemma_int_range(0, n as int);
        assert(used.subset_of(all));
        lemma_len_subset(used, all);
        let f = |j: int| pairing[taken[j]->0 as int];
        assert(injective_on(f, used)) by {
            assert forall|a: int, b: int|
                used.contains(a) && used.contains(b) && #[trigger] f(a) == #[trigger] f(b) implies a
                == b by {
                assert(tried[a] && tried[b]);
                let (x, y) = (taken[a]->0 as int, taken[b]->0 as int);
                assert(taken[a] is Some && taken[b] is Some);
                if x < y {
                    assert(pairing[x] != pairing[y]);
                } else if y < x {
                    assert(pairing[y] != pairing[x]);
                }
                assert(taken[a] == taken[b]);
                if a < b {
                    assert(!none[a] && !none[b]);
                } else if b < a {
                    assert(!none[a] && !none[b]);
                }
            }
        }
        lemma_map_size(used, used.map(f), f);
        let own = pairing[item];
        assert(used.contains(own)) by {
            assert(fits(table, item, own));
        }
        assert(used.map(f).subset_of(used.remove(own))) by {
            assert forall|k: int| used.map(f).contains(k) implies used.remove(own).contains(k) by {
                let j = choose|j: int| used.contains(j) && f(j) == k;
                assert(tried[j]);
                let other = taken[j]->0 as int;
                assert(fits(table, other, pairing[other]));
                assert(tried[k]);
                assert(!none[j]);
                assert(other != item);
                if other < item {
                    assert(pairing[other] != pairing[item]);
                } else {
                    assert(pairing[item] != pairing[other]);
                }
            }
        }
        lemma_len_subset(used.map(f), used.remove(own));
        assert(false);
    }
}

// --- Operations ----------------------------------------------------------

/// Finds a partner for an item among those that were not tried. Other items
/// may have to move on to another partner for that.
fn place(
    table: &Vec<Vec<bool>>,
    item: usize,
    taken: &mut Vec<Option<usize>>,
    tried: &mut Vec<bool>,
) -> (placed: bool)
    requires
        is_square(table@),
        item < table@.len(),
        old(tried)@.len() == table@.len(),
        is_sound(table@, old(taken)@),
        is_apart(old(taken)@, old(tried)@),
        !has_partner(old(taken)@, old(tried)@, item as int),
    ensures
        final(tried)@.len() == table@.len(),
        is_sound(table@, final(taken)@),
        forall|j: int| 0 <= j < table@.len() && #[trigger] old(tried)@[j] ==> final(tried)@[j],
        placed ==> {
            &&& is_apart(final(taken)@, old(tried)@)
            &&& forall|j: int|
                0 <= j < table@.len() && old(tried)@[j] ==> #[trigger] final(taken)@[j] == old(
                    taken,
                )@[j]
            &&& forall|k: int| #[trigger]
                has_partner(final(taken)@, old(tried)@, k) <==> k == item || has_partner(
                    old(taken)@,
                    old(tried)@,
                    k,
                )
        },
        !placed ==> {
            &&& final(taken)@ == old(taken)@
            &&& is_exhausted(table@, final(tried)@, item as int)
            &&& forall|j: int|
                0 <= j < table@.len() && #[trigger] final(tried)@[j] && !old(tried)@[j]
                    ==> final(taken)@[j] is Some && is_exhausted(
                    table@,
                    final(tried)@,
                    final(taken)@[j]->0 as int,
                )
        },
    decreases untried(old(tried)@),
{
    let ghost start = taken@;
    let ghost before = tried@;
    let mut j: usize = 0;
    while j < table.len()
        invariant
            j <= table@.len(),
            is_square(table@),
            item < table@.len(),
            before.len() == table@.len(),
            before == old(tried)@,
            start == old(taken)@,
            tried@.len() == table@.len(),
            taken@ == start,
            is_sound(table@, start),
            is_apart(start, before),
            !has_partner(start, before, item as int),
            forall|k: int| 0 <= k < table@.len() && #[trigger] before[k] ==> tried@[k],
            forall|k: int| 0 <= k < j && #[trigger] fits(table@, item as int, k) ==> tried@[k],
            forall|k: int|
                0 <= k < table@.len() && #[trigger] tried@[k] && !before[k] ==> start[k] is Some
                    && is_exhausted(table@, tried@, start[k]->0 as int),
        decreases table@.len() - j,
    {
        assert(table@[item as int]@.len() == table@.len());
        if table[item][j] && !tried[j] {
            assert(fits(table@, item as int, j as int));
            let ghost reached = tried@;
            tried.set(j, true);
            let ghost marked = tried@;
            match taken[j] {
                None => {
                    taken.set(j, Some(item));
                    proof {
                        lemma_taken(table@, start, before, j as int, item);
                    }
                    return true;
                },
                Some(other) => {
                    proof {
                        assert(start[j as int] == Some(other));
                        assert(!before[j as int]);
                        assert(!reached[j as int] && marked[j as int]);
                        assert forall|k: int| 0 <= k < before.len() && #[trigger]
                            before[k] implies marked[k] by {
                            assert(reached[k]);
                        }
                        lemma_untried(before, marked);
                        lemma_later(start, before, marked, j as int);
                    }
                    if place(table, other, taken, tried) {
                        let ghost moved = taken@;
                        taken.set(j, Some(item));
                        proof {
                            lemma_moved(table@, start, before, marked, moved, j as int, item);
                        }
                        return true;
                    }
                    proof {
                        assert forall|k: int|
                            0 <= k < table@.len() && #[trigger] tried@[k]
                                && !before[k] implies start[k] is Some && is_exhausted(
                            table@,
                            tried@,
                            start[k]->0 as int,
                        ) by {
                            if reached[k] {
                                let held = start[k]->0 as int;
                                assert(is_exhausted(table@, reached, held));
                                assert forall|m: int|
                                    0 <= m < table@.len() && #[trigger] fits(
                                        table@,
                                        held,
                                        m,
                                    ) implies tried@[m] by {
                                    assert(reached[m]);
                                    assert(marked[m]);
                                }
                            } else if k != j {
                                assert(!marked[k]);
                            }
                        }
                        assert forall|k: int|
                            0 <= k < j && #[trigger] fits(
                                table@,
                                item as int,
                                k,
                            ) implies tried@[k] by {
                            assert(reached[k]);
                            assert(marked[k]);
                        }
                        assert(marked[j as int]);
                        assert forall|k: int| 0 <= k < table@.len() && #[trigger]
                            before[k] implies tried@[k] by {
                            assert(reached[k]);
                            assert(marked[k]);
                        }
                    }
                },
            }
        }
        j = j + 1;
    }
    false
}

/// A partner that is free can be taken.
proof fn lemma_taken(
    table: Seq<Vec<bool>>,
    taken: Seq<Option<usize>>,
    tried: Seq<bool>,
    partner: int,
    item: usize,
)
    requires
        item < table.len(),
        0 <= partner < table.len(),
        tried.len() == table.len(),
        is_sound(table, taken),
        is_apart(taken, tried),
        !has_partner(taken, tried, item as int),
        !tried[partner],
        taken[partner] is None,
        fits(table, item as int, partner),
    ensures
        is_sound(table, taken.update(partner, Some(item))),
        is_apart(taken.update(partner, Some(item)), tried),
        forall|k: int| #[trigger]
            has_partner(taken.update(partner, Some(item)), tried, k) <==> k == item || has_partner(
                taken,
                tried,
                k,
            ),
{
    let now = taken.update(partner, Some(item));
    assert forall|i: int, j: int|
        0 <= i < j < now.len() && !tried[i] && !tried[j] && (#[trigger] now[i])
            is Some implies now[i] != #[trigger] now[j] by {
        if i == partner {
            assert(now[j] == taken[j]);
        } else if j == partner {
            assert(now[i] == taken[i]);
        } else {
            assert(now[i] == taken[i] && now[j] == taken[j]);
        }
    }
    assert forall|k: int| #[trigger] has_partner(now, tried, k) <==> k == item || has_partner(
        taken,
        tried,
        k,
    ) by {
        if k == item {
            assert(now[partner] is Some);
        }
        if has_partner(taken, tried, k) {
            let j = choose|j: int|
                0 <= j < taken.len() && !tried[j] && (#[trigger] taken[j]) is Some && taken[j]->0
                    == k;
            assert(now[j] is Some);
        }
        if has_partner(now, tried, k) && k != item {
            let j = choose|j: int|
                0 <= j < now.len() && !tried[j] && (#[trigger] now[j]) is Some && now[j]->0 == k;
            assert(taken[j] is Some);
        }
    }
}

/// The item that took a partner which is tried now has no other.
proof fn lemma_later(
    taken: Seq<Option<usize>>,
    before: Seq<bool>,
    after: Seq<bool>,
    partner: int,
)
    requires
        0 <= partner < taken.len(),
        before.len() == taken.len(),
        after.len() == taken.len(),
        is_apart(taken, before),
        forall|k: int| 0 <= k < before.len() && #[trigger] before[k] ==> after[k],
        !before[partner],
        after[partner],
        taken[partner] is Some,
    ensures
        is_apart(taken, after),
        !has_partner(taken, after, taken[partner]->0 as int),
{
    assert forall|i: int, j: int|
        0 <= i < j < taken.len() && !after[i] && !after[j] && (#[trigger] taken[i])
            is Some implies taken[i] != #[trigger] taken[j] by {
        assert(!before[i] && !before[j]);
    }
    if has_partner(taken, after, taken[partner]->0 as int) {
        let j = choose|j: int|
            0 <= j < taken.len() && !after[j] && (#[trigger] taken[j]) is Some && taken[j]->0
                == taken[partner]->0 as int;
        assert(!before[j]);
        if j < partner {
            assert(taken[j] != taken[partner]);
        } else {
            assert(taken[partner] != taken[j]);
        }
    }
}

/// A partner can be taken once the item that had it moved on.
proof fn lemma_moved(
    table: Seq<Vec<bool>>,
    taken: Seq<Option<usize>>,
    before: Seq<bool>,
    after: Seq<bool>,
    moved: Seq<Option<usize>>,
    partner: int,
    item: usize,
)
    requires
        item < table.len(),
        0 <= partner < table.len(),
        before.len() == table.len(),
        after.len() == table.len(),
        is_sound(table, taken),
        is_sound(table, moved),
        is_apart(taken, before),
        is_apart(moved, after),
        !has_partner(taken, before, item as int),
        forall|k: int| 0 <= k < before.len() && #[trigger] before[k] ==> after[k],
        !before[partner],
        after[partner],
        taken[partner] is Some,
        fits(table, item as int, partner),
        forall|j: int| 0 <= j < table.len() && after[j] ==> #[trigger] moved[j] == taken[j],
        forall|k: int| #[trigger]
            has_partner(moved, after, k) <==> k == taken[partner]->0 || has_partner(
                taken,
                after,
                k,
            ),
    ensures
        is_sound(table, moved.update(partner, Some(item))),
        is_apart(moved.update(partner, Some(item)), before),
        forall|j: int|
            0 <= j < table.len() && before[j] ==> #[trigger] moved.update(
                partner,
                Some(item),
            )[j] == taken[j],
        forall|k: int| #[trigger]
            has_partner(moved.update(partner, Some(item)), before, k) <==> k == item || has_partner(
                taken,
                before,
                k,
            ),
{
    let now = moved.update(partner, Some(item));
    let other = taken[partner]->0;
    // Where an item stands now, it or the one that moved on stood before.
    assert forall|j: int|
        0 <= j < now.len() && !before[j] && j != partner && (#[trigger] now[j])
            is Some implies has_partner(taken, before, now[j]->0 as int) by {
        if after[j] {
            assert(moved[j] == taken[j]);
            assert(taken[j] is Some);
        } else {
            assert(moved[j] is Some);
            assert(has_partner(moved, after, now[j]->0 as int));
            if now[j]->0 == other {
                assert(taken[partner] is Some);
            } else {
                let m = choose|m: int|
                    0 <= m < taken.len() && !after[m] && (#[trigger] taken[m]) is Some
                        && taken[m]->0 == now[j]->0 as int;
                assert(!before[m] && taken[m] is Some);
            }
        }
    }
    assert forall|i: int, j: int|
        0 <= i < j < now.len() && !before[i] && !before[j] && (#[trigger] now[i])
            is Some implies now[i] != #[trigger] now[j] by {
        if i == partner || j == partner {
            let m = if i == partner {
                j
            } else {
                i
            };
            if now[m] == Some(item) {
                assert(has_partner(taken, before, now[m]->0 as int));
            }
        } else if !after[i] && !after[j] {
            assert(moved[i] != moved[j]);
        } else if after[i] && after[j] {
            assert(moved[i] == taken[i] && moved[j] == taken[j]);
        } else {
            let (x, y) = if after[i] {
                (i, j)
            } else {
                (j, i)
            };
            assert(moved[x] == taken[x]);
            if moved[x] == moved[y] {
                let held = moved[y]->0;
                assert(moved[y] is Some);
                assert(has_partner(moved, after, held as int));
                if held == other {
                    if x < partner {
                        assert(taken[x] != taken[partner]);
                    } else {
                        assert(taken[partner] != taken[x]);
                    }
                } else {
                    let m = choose|m: int|
                        0 <= m < taken.len() && !after[m] && (#[trigger] taken[m]) is Some
                            && taken[m]->0 == held as int;
                    assert(!before[m]);
                    if x < m {
                        assert(taken[x] != taken[m]);
                    } else {
                        assert(taken[m] != taken[x]);
                    }
                }
            }
        }
    }
    assert forall|k: int| #[trigger] has_partner(now, before, k) <==> k == item || has_partner(
        taken,
        before,
        k,
    ) by {
        if k == item {
            assert(now[partner] is Some);
        }
        if has_partner(now, before, k) && k != item {
            let j = choose|j: int|
                0 <= j < now.len() && !before[j] && (#[trigger] now[j]) is Some && now[j]->0 == k;
            assert(j != partner);
        }
        if has_partner(taken, before, k) && k != item {
            let j = choose|j: int|
                0 <= j < taken.len() && !before[j] && (#[trigger] taken[j]) is Some && taken[j]->0
                    == k;
            if j != partner && after[j] {
                assert(moved[j] == taken[j]);
                assert(now[j] is Some);
            } else {
                if j != partner {
                    assert(has_partner(taken, after, k));
                }
                assert(has_partner(moved, after, k));
                let m = choose|m: int|
                    0 <= m < moved.len() && !after[m] && (#[trigger] moved[m]) is Some
                        && moved[m]->0 == k;
                assert(!before[m]);
                assert(now[m] is Some);
            }
        }
    }
}

/// Whether each item can have a fitting partner of its own.
pub fn pairs_up(table: &Vec<Vec<bool>>) -> (paired: bool)
    requires
        is_square(table@),
    ensures
        paired == can_pair(table@),
{
    let n: usize = table.len();
    let mut taken: Vec<Option<usize>> = Vec::new();
    let ghost none = Seq::new(n as nat, |j: int| false);
    let mut filled: usize = 0;
    while filled < n
        invariant
            filled <= n,
            taken@.len() == filled,
            forall|j: int| 0 <= j < filled ==> #[trigger] taken@[j] is None,
        decreases n - filled,
    {
        taken.push(None);
        filled = filled + 1;
    }
    let mut item: usize = 0;
    while item < n
        invariant
            item <= n,
            n == table@.len(),
            is_square(table@),
            none == Seq::new(n as nat, |j: int| false),
            is_sound(table@, taken@),
            is_apart(taken@, none),
            forall|k: int| #[trigger] has_partner(taken@, none, k) <==> 0 <= k < item,
        decreases n - item,
    {
        let mut tried: Vec<bool> = Vec::new();
        let mut filled: usize = 0;
        while filled < n
            invariant
                filled <= n,
                tried@.len() == filled,
                forall|j: int| 0 <= j < filled ==> !(#[trigger] tried@[j]),
            decreases n - filled,
        {
            tried.push(false);
            filled = filled + 1;
        }
        assert(tried@ =~= none);
        if !place(table, item, &mut taken, &mut tried) {
            proof {
                lemma_nothing_left(table@, taken@, none, tried@, item as int);
            }
            return false;
        }
        item = item + 1;
    }
    proof {
        let pairing = Seq::new(
            n as nat,
            |i: int|
                choose|j: int|
                    0 <= j < n && (#[trigger] taken@[j]) is Some && taken@[j]->0 == i,
        );
        assert forall|i: int| 0 <= i < n implies 0 <= #[trigger] pairing[i] < n
            && taken@[pairing[i]] is Some && taken@[pairing[i]]->0 == i by {
            assert(has_partner(taken@, none, i));
        }
        assert forall|i: int, j: int| 0 <= i < j < n implies #[trigger] pairing[i]
            != #[trigger] pairing[j] by {
            assert(taken@[pairing[i]]->0 == i && taken@[pairing[j]]->0 == j);
        }
        assert(is_pairing(pairing, n as nat));
        assert forall|i: int| 0 <= i < n implies #[trigger] fits(table@, i, pairing[i]) by {
            assert(taken@[pairing[i]] is Some);
        }
    }
    true
}

} // verus!
