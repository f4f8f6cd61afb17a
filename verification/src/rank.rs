//! The consumable ranking engine: a pure, deterministic ordering over the
//! visible foods and recipes of a user, favoring what is likely to be logged
//! next. Each item gets a score — starred items, recently and frequently
//! consumed items, and just-created items score higher — and the list is
//! sorted by descending score with ties broken by ascending name. "Now" is
//! injected by the caller, so the same inputs always order the same way.
use vstd::prelude::*;

use crate::model::ConsumableModel;

verus! {

/// Which kind of consumable a summary row stands for.
#[derive(Clone, Copy, PartialEq, Eq, Structural, Debug)]
pub enum ConsumableType {
    Food,
    Recipe,
}

impl ConsumableType {
    pub fn as_str(&self) -> (r: &'static str)
        ensures
            *self is Food ==> r@ == "food"@,
            *self is Recipe ==> r@ == "recipe"@,
    {
        match self {
            ConsumableType::Food => "food",
            ConsumableType::Recipe => "recipe",
        }
    }
}

/// A summary of one visible food or recipe: whether it is starred, when it
/// was created, the most recent date within the trailing seven days it was
/// consumed, and how often it was consumed in that window.
#[derive(Debug)]
pub struct Consumable {
    pub ctype: ConsumableType,
    pub id: u64,
    pub name: String,
    pub is_starred: bool,
    pub created_at: u64,
    pub last_consumed_at: Option<u32>,
    pub consumed_count: u64,
}

impl View for Consumable {
    type V = ConsumableModel;

    open spec fn view(&self) -> ConsumableModel {
        ConsumableModel {
            ctype: self.ctype,
            id: self.id,
            name: self.name@,
            is_starred: self.is_starred,
            created_at: self.created_at,
            last_consumed_at: self.last_consumed_at,
            consumed_count: self.consumed_count,
        }
    }
}

/// The score of a consumable: +100 when starred; +(100 - days since last
/// consumed) when consumed in the trailing window; +10 per consumption in
/// the window; +1000 when created less than five minutes (300 seconds) ago.
pub open spec fn spec_sorting_points(c: ConsumableModel, today: u32, now: u64) -> int {
    (if c.is_starred {
        100int
    } else {
        0int
    }) + (match c.last_consumed_at {
        Some(d) => 100 - (today - d),
        None => 0int,
    }) + 10 * c.consumed_count + (if c.created_at + 300 > now {
        1000int
    } else {
        0int
    })
}

/// Computes the ranking score of one consumable, against the given date
/// (for recency) and clock reading (for the new-item boost).
pub fn sorting_points(c: &Consumable, today: u32, now: u64) -> (r: i128)
    ensures
        r == spec_sorting_points(c@, today, now),
{
    let mut points: i128 = 0;
    if c.is_starred {
        points = points + 100;
    }
    if let Some(d) = c.last_consumed_at {
        points = points + 100 - (today as i128 - d as i128);
    }
    points = points + 10 * (c.consumed_count as i128);
    if (c.created_at as u128) + 300 > (now as u128) {
        points = points + 1000;
    }
    points
}

/// Ordinal (code-point) lexicographic order on names.
pub open spec fn lex_le(a: Seq<char>, b: Seq<char>) -> bool
    decreases a.len(),
{
    if a.len() == 0 {
        true
    } else if b.len() == 0 {
        false
    } else if (a[0] as int) < (b[0] as int) {
        true
    } else if (b[0] as int) < (a[0] as int) {
        false
    } else {
        lex_le(a.skip(1), b.skip(1))
    }
}

/// The display order: descending score, ties broken by ascending name. Two
/// items compare equal only when their scores and names both agree.
pub open spec fn ranked_le(a: ConsumableModel, b: ConsumableModel, today: u32, now: u64) -> bool {
    spec_sorting_points(a, today, now) > spec_sorting_points(b, today, now) || (
    spec_sorting_points(a, today, now) == spec_sorting_points(b, today, now) && lex_le(
        a.name,
        b.name,
    ))
}

pub proof fn lemma_lex_le_total(a: Seq<char>, b: Seq<char>)
    ensures
        lex_le(a, b) || lex_le(b, a),
    decreases a.len(),
{
    if a.len() > 0 && b.len() > 0 && a[0] == b[0] {
        lemma_lex_le_total(a.skip(1), b.skip(1));
    }
}

pub proof fn lemma_lex_le_trans(a: Seq<char>, b: Seq<char>, c: Seq<char>)
    requires
        lex_le(a, b),
        lex_le(b, c),
    ensures
        lex_le(a, c),
    decreases a.len(),
{
    if a.len() > 0 && b.len() > 0 && c.len() > 0 && !((a[0] as int) < (c[0] as int)) {
        lemma_lex_le_trans(a.skip(1), b.skip(1), c.skip(1));
    }
}

/// The ranking order is total: any two summaries are comparable.
pub proof fn lemma_ranked_le_total(a: ConsumableModel, b: ConsumableModel, today: u32, now: u64)
    ensures
        ranked_le(a, b, today, now) || ranked_le(b, a, today, now),
{
    lemma_lex_le_total(a.name, b.name);
}

/// The ranking order is transitive.
pub proof fn lemma_ranked_le_trans(
    a: ConsumableModel,
    b: ConsumableModel,
    c: ConsumableModel,
    today: u32,
    now: u64,
)
    requires
        ranked_le(a, b, today, now),
        ranked_le(b, c, today, now),
    ensures
        ranked_le(a, c, today, now),
{
    if spec_sorting_points(a, today, now) == spec_sorting_points(c, today, now) {
        lemma_lex_le_trans(a.name, b.name, c.name);
    }
}

/// Compares two names in ordinal lexicographic order.
fn name_le(a: &String, b: &String) -> (r: bool)
    ensures
        r == lex_le(a@, b@),
{
    let alen = a.as_str().unicode_len();
    let blen = b.as_str().unicode_len();
    let mut i: usize = 0;
    proof {
        assert(a@.skip(0) =~= a@);
        assert(b@.skip(0) =~= b@);
    }
    while i < alen && i < blen
        invariant
            alen == a@.len(),
            blen == b@.len(),
            i <= alen,
            i <= blen,
            lex_le(a@, b@) == lex_le(a@.skip(i as int), b@.skip(i as int)),
        decreases alen - i,
    {
        let ca = a.as_str().get_char(i);
        let cb = b.as_str().get_char(i);
        proof {
            assert(a@.skip(i as int)[0] == a@[i as int]);
            assert(b@.skip(i as int)[0] == b@[i as int]);
            assert(a@.skip(i as int).skip(1) =~= a@.skip(i + 1));
            assert(b@.skip(i as int).skip(1) =~= b@.skip(i + 1));
        }
        if (ca as u32) < (cb as u32) {
            return true;
        }
        if (cb as u32) < (ca as u32) {
            return false;
        }
        i = i + 1;
    }
    proof {
        if i >= alen {
            assert(a@.skip(i as int).len() == 0);
        } else {
            assert(b@.skip(i as int).len() == 0);
            assert(a@.skip(i as int).len() > 0);
        }
    }
    alen <= blen
}

/// Compares two summaries in display order.
fn ranked_le_exec(a: &Consumable, b: &Consumable, today: u32, now: u64) -> (r: bool)
    ensures
        r == ranked_le(a@, b@, today, now),
{
    let pa = sorting_points(a, today, now);
    let pb = sorting_points(b, today, now);
    if pa > pb {
        true
    } else if pa < pb {
        false
    } else {
        name_le(&a.name, &b.name)
    }
}

/// Sorts the summaries into display order: descending score, ties broken by
/// ascending name. The result is a permutation of the input; same inputs,
/// same order.
pub fn rank_consumables(v: Vec<Consumable>, today: u32, now: u64) -> (r: Vec<Consumable>)
    ensures
        r@.map_values(|c: Consumable| c@).to_multiset() == v@.map_values(
            |c: Consumable| c@,
        ).to_multiset(),
        r@.len() == v@.len(),
        forall|p: int, q: int|
            0 <= p < q < r@.len() ==> ranked_le(r@[p]@, r@[q]@, today, now),
{
    broadcast use vstd::prelude::Seq::to_multiset_ensures;
    broadcast use vstd::seq_lib::to_multiset_remove;
    broadcast use vstd::seq_lib::to_multiset_insert;

    let ghost orig = v@.map_values(|c: Consumable| c@);
    let mut v = v;
    let n = v.len();
    let mut i: usize = 1;
    while i < n
        invariant
            n == v.len(),
            1 <= i,
            v@.map_values(|c: Consumable| c@).to_multiset() == orig.to_multiset(),
            forall|p: int, q: int|
                0 <= p < q < i && q < n ==> ranked_le(v@[p]@, v@[q]@, today, now),
        decreases n - i,
    {
        let ghost before = v@.map_values(|c: Consumable| c@);
        let x = v.remove(i);
        let ghost removed = v@.map_values(|c: Consumable| c@);
        proof {
            assert(removed =~= before.remove(i as int));
        }
        let mut j: usize = i;
        while j > 0 && !ranked_le_exec(&v[j - 1], &x, today, now)
            invariant
                j <= i,
                i < n,
                n == v.len() + 1,
                removed == v@.map_values(|c: Consumable| c@),
                forall|q: int| j <= q < i ==> ranked_le(x@, v@[q]@, today, now),
                forall|p: int, q: int|
                    0 <= p < q < i ==> ranked_le(v@[p]@, v@[q]@, today, now),
            decreases j,
        {
            proof {
                lemma_ranked_le_total(v@[j - 1]@, x@, today, now);
            }
            j = j - 1;
        }
        v.insert(j, x);
        proof {
            let mapped = v@.map_values(|c: Consumable| c@);
            assert(mapped =~= removed.insert(j as int, x@));
            vstd::seq_lib::to_multiset_insert(removed, j as int, x@);
            vstd::seq_lib::to_multiset_remove(before, i as int);
            assert(before[i as int] == x@);
            before.to_multiset_ensures();
            assert(before.contains(x@));
            assert(before.to_multiset().count(x@) > 0);
            assert(before.to_multiset().remove(x@).insert(x@) =~= before.to_multiset());
            assert(mapped.to_multiset() == before.to_multiset());
            assert forall|p: int, q: int|
                0 <= p < q < i + 1 && q < n implies ranked_le(v@[p]@, v@[q]@, today, now) by {
                let jj = j as int;
                if p < jj && q < jj {
                    assert(v@[p]@ == before[p] && v@[q]@ == before[q]);
                } else if p < jj && q == jj {
                    assert(v@[p]@ == before[p]);
                    assert(ranked_le(before[p], before[jj - 1], today, now) || p == jj - 1);
                    if p < jj - 1 {
                        lemma_ranked_le_trans(before[p], before[jj - 1], x@, today, now);
                    }
                } else if p < jj && q > jj {
                    assert(v@[p]@ == before[p] && v@[q]@ == before[q - 1]);
                } else if p == jj {
                    assert(v@[q]@ == before[q - 1]);
                    assert(ranked_le(x@, before[q - 1], today, now));
                } else {
                    assert(v@[p]@ == before[p - 1] && v@[q]@ == before[q - 1]);
                }
            }
        }
        i = i + 1;
    }
    v
}

// ---------------------------------------------------------------------------
// Laws of the ranking score.

/// An item consumed once today outranks a merely starred item: the recency
/// and frequency terms (at least 110) beat the star bonus (100). When both
/// items are starred and otherwise identical, they tie and fall back to
/// ascending name order.
pub proof fn lemma_recent_use_beats_star(
    a: ConsumableModel,
    b: ConsumableModel,
    today: u32,
    now: u64,
)
    requires
        a.is_starred,
        a.last_consumed_at is None,
        a.consumed_count == 0,
        a.created_at + 300 <= now,
        !b.is_starred,
        b.last_consumed_at == Some(today),
        b.consumed_count == 1,
        b.created_at + 300 <= now,
    ensures
        spec_sorting_points(b, today, now) > spec_sorting_points(a, today, now),
        ranked_le(b, a, today, now),
        !ranked_le(a, b, today, now),
{
}

/// Two summaries with identical score terms tie, and the tie falls back to
/// ascending name order.
pub proof fn lemma_ties_order_by_name(
    a: ConsumableModel,
    b: ConsumableModel,
    today: u32,
    now: u64,
)
    requires
        a.is_starred == b.is_starred,
        a.last_consumed_at == b.last_consumed_at,
        a.consumed_count == b.consumed_count,
        a.created_at == b.created_at,
        lex_le(a.name, b.name),
    ensures
        ranked_le(a, b, today, now),
{
}

/// A just-created item outranks every other item whose own terms are in
/// their ordinary ranges: not itself just created, no future-dated last
/// consumption, and fewer than eighty consumptions in the window. The
/// new-item bonus (1000) then dominates the sum of the other terms (at most
/// 100 + 100 + 790).
pub proof fn lemma_new_item_outranks(
    a: ConsumableModel,
    b: ConsumableModel,
    today: u32,
    now: u64,
)
    requires
        a.created_at + 300 > now,
        match a.last_consumed_at {
            Some(d) => d + 7 > today,
            None => true,
        },
        b.created_at + 300 <= now,
        match b.last_consumed_at {
            Some(d) => d <= today,
            None => true,
        },
        b.consumed_count < 80,
    ensures
        spec_sorting_points(a, today, now) > spec_sorting_points(b, today, now),
        ranked_le(a, b, today, now),
        !ranked_le(b, a, today, now),
{
}

} // verus!
