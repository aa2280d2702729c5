//! Win statistics over stored battle records.

use vstd::prelude::*;
use crate::data::{SmashbrosData, unknown_name, value_or_minus_one};

verus! {

/// A record the statistics can read: well formed, and every player can be checked.
pub open spec fn readable(d: SmashbrosData) -> bool {
    d.wf() && d.all_checkable()
}

/// All records of a list are readable.
pub open spec fn all_readable(s: Seq<SmashbrosData>) -> bool {
    forall|i: int| 0 <= i < s.len() ==> #[trigger] readable(s[i])
}

/// The placing of player `p` in a record (-1 when unknown).
pub open spec fn order_of(d: SmashbrosData, p: int) -> int {
    value_or_minus_one(d.orders(), p) as int
}

/// A one-on-one battle whose placings are decided and differ: a win or a loss.
pub open spec fn counted(d: SmashbrosData) -> bool {
    &&& d.player_count() == 2
    &&& d.all_decided_order_spec()
    &&& order_of(d, 0) != -1
    &&& order_of(d, 1) != -1
    &&& order_of(d, 0) != order_of(d, 1)
}

/// A counted battle that the first player won.
pub open spec fn won(d: SmashbrosData) -> bool {
    counted(d) && order_of(d, 0) < order_of(d, 1)
}

/// The character of the opponent (the second player) of a record.
pub open spec fn opponent(d: SmashbrosData) -> Seq<char> {
    if 1 < d.charas().len() {
        d.charas()[1].value()
    } else {
        unknown_name()
    }
}

/// The number of counted battles in `s` against the character `k`, or
/// against any character when `k` is `None`.
pub open spec fn battles_in(s: Seq<SmashbrosData>, k: Option<Seq<char>>) -> int
    decreases s.len(),
{
    if s.len() == 0 {
        0
    } else {
        battles_in(s.drop_last(), k) + if counted(s.last()) && (k is None || k == Some(
            opponent(s.last()),
        )) {
            1int
        } else {
            0int
        }
    }
}

/// The number of won battles in `s` against the character `k`, or against
/// any character when `k` is `None`.
pub open spec fn wins_in(s: Seq<SmashbrosData>, k: Option<Seq<char>>) -> int
    decreases s.len(),
{
    if s.len() == 0 {
        0
    } else {
        wins_in(s.drop_last(), k) + if won(s.last()) && (k is None || k == Some(opponent(s.last()))) {
            1int
        } else {
            0int
        }
    }
}

/// A list of records never has more wins than counted battles, nor more
/// counted battles than records.
pub proof fn lemma_tally_bounds(s: Seq<SmashbrosData>, k: Option<Seq<char>>)
    ensures
        0 <= wins_in(s, k) <= battles_in(s, k) <= s.len(),
    decreases s.len(),
{
    if s.len() > 0 {
        lemma_tally_bounds(s.drop_last(), k);
    }
}

/// Only one-on-one battles are counted: a record of any other number of
/// players, added to a list, changes neither the counted battles nor the
/// wins, against any opponent or all, nor the wins and losses of the
/// latest-results summary.
pub proof fn lemma_only_one_on_one_counts(s: Seq<SmashbrosData>, d: SmashbrosData, k: Option<Seq<char>>)
    requires
        d.player_count() != 2,
    ensures
        battles_in(s.push(d), k) == battles_in(s, k),
        wins_in(s.push(d), k) == wins_in(s, k),
        count_where(s.push(d), |r: SmashbrosData| summary_win(r)) == count_where(s, |r: SmashbrosData| summary_win(r)),
        count_where(s.push(d), |r: SmashbrosData| summary_loss(r)) == count_where(
            s,
            |r: SmashbrosData| summary_loss(r),
        ),
{
    assert(s.push(d).drop_last() =~= s);
    assert(s.push(d).last() == d);
}

proof fn lemma_tally_step(s: Seq<SmashbrosData>, i: int, k: Option<Seq<char>>)
    requires
        0 <= i < s.len(),
    ensures
        battles_in(s.take(i + 1), k) == battles_in(s.take(i), k) + if counted(s[i]) && (k is None
            || k == Some(opponent(s[i]))) {
            1int
        } else {
            0int
        },
        wins_in(s.take(i + 1), k) == wins_in(s.take(i), k) + if won(s[i]) && (k is None || k == Some(
            opponent(s[i]),
        )) {
            1int
        } else {
            0int
        },
{
    assert(s.take(i + 1).drop_last() =~= s.take(i));
}

/// Whether a record is a counted battle, and whether it was won.
fn tally_one(d: &SmashbrosData) -> (r: (bool, bool))
    requires
        readable(*d),
    ensures
        r.0 == counted(*d),
        r.1 == won(*d),
{
    if d.get_player_count() != 2 || !d.all_decided_order() || -1 == d.get_order(0) || -1 == d.get_order(
        1,
    ) || d.get_order(0) == d.get_order(1) {
        return (false, false);
    }
    (true, d.get_order(0) < d.get_order(1))
}

/// The number of won and of counted battles of the first player among the
/// records: a battle counts when it is one-on-one and both placings are
/// decided, known and different; it is won when the first player placed
/// higher. The win rate is the first number over the second.
pub fn count_wins_by_data_list(data_list: &Vec<SmashbrosData>) -> (r: (u64, u64))
    requires
        all_readable(data_list@),
    ensures
        r.0 == wins_in(data_list@, None),
        r.1 == battles_in(data_list@, None),
{
    let mut wins: u64 = 0;
    let mut battles: u64 = 0;
    let mut i: usize = 0;
    while i < data_list.len()
        invariant
            all_readable(data_list@),
            i <= data_list@.len(),
            wins == wins_in(data_list@.take(i as int), None),
            battles == battles_in(data_list@.take(i as int), None),
        decreases data_list@.len() - i,
    {
        proof {
            lemma_tally_step(data_list@, i as int, None);
            lemma_tally_bounds(data_list@.take(i as int), None);
            assert(readable(data_list@[i as int]));
        }
        let (c, w) = tally_one(&data_list[i]);
        if c {
            battles = battles + 1;
        }
        if w {
            wins = wins + 1;
        }
        i = i + 1;
    }
    proof {
        assert(data_list@.take(data_list@.len() as int) =~= data_list@);
    }
    (wins, battles)
}

/// A record the latest-ten summary looks at: a one-on-one battle whose two
/// placings are both known.
pub open spec fn summary_looked_at(d: SmashbrosData) -> bool {
    &&& d.player_count() == 2
    &&& order_of(d, 0) != -1
    &&& order_of(d, 1) != -1
}

/// A looked-at record that the first player won: the first placing is
/// the smaller one.
pub open spec fn summary_win(d: SmashbrosData) -> bool {
    summary_looked_at(d) && order_of(d, 0) < order_of(d, 1)
}

/// A looked-at record that the first player lost: the first placing is
/// the larger one.
pub open spec fn summary_loss(d: SmashbrosData) -> bool {
    summary_looked_at(d) && order_of(d, 0) > order_of(d, 1)
}

pub open spec fn count_where(s: Seq<SmashbrosData>, f: spec_fn(SmashbrosData) -> bool) -> int
    decreases s.len(),
{
    if s.len() == 0 {
        0
    } else {
        count_where(s.drop_last(), f) + if f(s.last()) {
            1int
        } else {
            0int
        }
    }
}

proof fn lemma_count_where_step(s: Seq<SmashbrosData>, i: int, f: spec_fn(SmashbrosData) -> bool)
    requires
        0 <= i < s.len(),
    ensures
        count_where(s.take(i + 1), f) == count_where(s.take(i), f) + if f(s[i]) {
            1int
        } else {
            0int
        },
{
    assert(s.take(i + 1).drop_last() =~= s.take(i));
}

proof fn lemma_count_where_bound(s: Seq<SmashbrosData>, f: spec_fn(SmashbrosData) -> bool)
    ensures
        0 <= count_where(s, f) <= s.len(),
    decreases s.len(),
{
    if s.len() > 0 {
        lemma_count_where_bound(s.drop_last(), f);
    }
}

/// The (wins, losses) of a list of records, as shown for the latest ten:
/// only one-on-one records with both placings known count.
pub fn win_lose_by_data_list(data_list: &Vec<SmashbrosData>) -> (r: (i32, i32))
    requires
        data_list@.len() <= i32::MAX,
    ensures
        r.0 == count_where(data_list@, |d: SmashbrosData| summary_win(d)),
        r.1 == count_where(data_list@, |d: SmashbrosData| summary_loss(d)),
{
    let ghost fw = |d: SmashbrosData| summary_win(d);
    let ghost fl = |d: SmashbrosData| summary_loss(d);
    let mut win: i32 = 0;
    let mut lose: i32 = 0;
    let mut i: usize = 0;
    while i < data_list.len()
        invariant
            data_list@.len() <= i32::MAX,
            fw == (|d: SmashbrosData| summary_win(d)),
            fl == (|d: SmashbrosData| summary_loss(d)),
            i <= data_list@.len(),
            win == count_where(data_list@.take(i as int), fw),
            lose == count_where(data_list@.take(i as int), fl),
        decreases data_list@.len() - i,
    {
        proof {
            lemma_count_where_step(data_list@, i as int, fw);
            lemma_count_where_step(data_list@, i as int, fl);
            lemma_count_where_bound(data_list@.take(i as int), fw);
            lemma_count_where_bound(data_list@.take(i as int), fl);
        }
        let d = &data_list[i];
        let first = d.get_order(0);
        let second = d.get_order(1);
        if d.get_player_count() == 2 && first != -1 && second != -1 {
            if first < second {
                win = win + 1;
            } else if first > second {
                lose = lose + 1;
            }
        }
        i = i + 1;
    }
    proof {
        assert(data_list@.take(data_list@.len() as int) =~= data_list@);
    }
    (win, lose)
}


/// Whether a record is a battle against the character `c`.
pub open spec fn against(c: Seq<char>) -> spec_fn(SmashbrosData) -> bool {
    |d: SmashbrosData| opponent(d) == c
}

/// The tallies against one opponent character are the whole-list tallies
/// of the records against that character alone, taken in their order.
pub proof fn lemma_character_tally_filtered(s: Seq<SmashbrosData>, c: Seq<char>)
    ensures
        wins_in(s, Some(c)) == wins_in(s.filter(against(c)), None),
        battles_in(s, Some(c)) == battles_in(s.filter(against(c)), None),
    decreases s.len(),
{
    reveal(Seq::filter);
    if s.len() > 0 {
        lemma_character_tally_filtered(s.drop_last(), c);
        let sub = s.drop_last().filter(against(c));
        if against(c)(s.last()) {
            assert(sub.push(s.last()).drop_last() =~= sub);
        }
    }
}

/// The number of battles won in a row at the head of `s` (a list newest
/// first): the winning streak that a list of the latest battles shows.
pub open spec fn leading_wins(s: Seq<SmashbrosData>) -> int
    decreases s.len(),
{
    if s.len() > 0 && won(s[0]) {
        1 + leading_wins(s.drop_first())
    } else {
        0
    }
}

/// The current winning streak of a list of records, newest first: how many
/// of the latest battles in a row the first player won. A battle that was
/// not won, or whose result is not known, ends the streak.
pub fn win_streak(data_list: &Vec<SmashbrosData>) -> (r: u64)
    requires
        all_readable(data_list@),
    ensures
        r == leading_wins(data_list@),
        forall|i: int| 0 <= i < r ==> #[trigger] won(data_list@[i]),
        r < data_list@.len() ==> !won(data_list@[r as int]),
{
    let mut i: usize = 0;
    proof {
        assert(data_list@.skip(0) =~= data_list@);
    }
    while i < data_list.len()
        invariant_except_break
            all_readable(data_list@),
            i <= data_list@.len(),
            leading_wins(data_list@) == i + leading_wins(data_list@.skip(i as int)),
            forall|j: int| 0 <= j < i ==> #[trigger] won(data_list@[j]),
        ensures
            i <= data_list@.len(),
            leading_wins(data_list@) == i + leading_wins(data_list@.skip(i as int)),
            forall|j: int| 0 <= j < i ==> #[trigger] won(data_list@[j]),
            i < data_list@.len() ==> !won(data_list@[i as int]),
        decreases data_list@.len() - i,
    {
        proof {
            assert(readable(data_list@[i as int]));
            assert(data_list@.skip(i as int)[0] == data_list@[i as int]);
            assert(data_list@.skip(i as int).drop_first() =~= data_list@.skip(i + 1));
        }
        let (_, w) = tally_one(&data_list[i]);
        if !w {
            break;
        }
        i = i + 1;
    }
    proof {
        if i == data_list@.len() {
            assert(data_list@.skip(i as int).len() == 0);
        } else {
            assert(data_list@.skip(i as int)[0] == data_list@[i as int]);
        }
    }
    i as u64
}

/// The power to show beside the statistics: the first player's power in
/// the latest record of `data_list` (newest first), or in `data` when the
/// list is empty; -1 when it is not known.
pub fn last_power(data: &SmashbrosData, data_list: &Vec<SmashbrosData>) -> (r: i32)
    ensures
        r == (if data_list@.len() == 0 {
            value_or_minus_one(data.powers(), 0)
        } else {
            value_or_minus_one(data_list@[0].powers(), 0)
        }),
{
    if data_list.len() == 0 {
        data.get_power(0)
    } else {
        data_list[0].get_power(0)
    }
}

/// The opponents' characters of a list of records.
pub open spec fn opponents(s: Seq<SmashbrosData>) -> Seq<Seq<char>> {
    s.map_values(|d: SmashbrosData| opponent(d))
}

/// The distinct names of a sequence in the order in which they first occur.
pub open spec fn first_appearances(names: Seq<Seq<char>>) -> Seq<Seq<char>>
    decreases names.len(),
{
    if names.len() == 0 {
        Seq::empty()
    } else {
        let f = first_appearances(names.drop_last());
        if f.contains(names.last()) {
            f
        } else {
            f.push(names.last())
        }
    }
}

proof fn lemma_first_appearances(names: Seq<Seq<char>>)
    ensures
        forall|x: Seq<char>| first_appearances(names).contains(x) <==> names.contains(x),
        first_appearances(names).no_duplicates(),
    decreases names.len(),
{
    if names.len() > 0 {
        let t = names.drop_last();
        let l = names.last();
        let f0 = first_appearances(t);
        let f = first_appearances(names);
        lemma_first_appearances(t);
        assert forall|x: Seq<char>| f.contains(x) implies names.contains(x) by {
            if f0.contains(x) {
                assert(first_appearances(t).contains(x) <==> t.contains(x));
                assert(t.contains(x));
                let i = choose|i: int| 0 <= i < t.len() && t[i] == x;
                assert(names[i] == x);
            } else {
                assert(names[names.len() - 1] == x);
            }
        }
        assert forall|x: Seq<char>| names.contains(x) implies f.contains(x) by {
            let i = choose|i: int| 0 <= i < names.len() && names[i] == x;
            if i < names.len() - 1 {
                assert(t[i] == x);
                assert(t.contains(x));
                assert(first_appearances(t).contains(x) <==> t.contains(x));
                assert(f0.contains(x));
                let k = choose|k: int| 0 <= k < f0.len() && f0[k] == x;
                assert(f[k] == x);
            } else if !f0.contains(l) {
                assert(f[f.len() - 1] == x);
            }
        }
        if !f0.contains(l) {
            assert forall|a: int, b: int| 0 <= a < f.len() && 0 <= b < f.len() && a != b implies f[a]
                != f[b] by {
                if a == f.len() - 1 && b < f.len() - 1 {
                    assert(f[b] == f0[b]);
                } else if b == f.len() - 1 && a < f.len() - 1 {
                    assert(f[a] == f0[a]);
                }
            }
        }
    }
}

proof fn lemma_no_opponent(s: Seq<SmashbrosData>, k: Seq<char>)
    requires
        !opponents(s).contains(k),
    ensures
        wins_in(s, Some(k)) == 0,
        battles_in(s, Some(k)) == 0,
    decreases s.len(),
{
    if s.len() > 0 {
        let t = s.drop_last();
        assert(opponents(s)[s.len() - 1] == opponent(s.last()));
        assert forall|i: int| 0 <= i < opponents(t).len() implies opponents(t)[i] != k by {
            assert(opponents(t)[i] == opponents(s)[i]);
        }
        lemma_no_opponent(t, k);
    }
}

proof fn lemma_opponents_step(s: Seq<SmashbrosData>, i: int)
    requires
        0 <= i < s.len(),
    ensures
        opponents(s.take(i + 1)) == opponents(s.take(i)).push(opponent(s[i])),
        opponents(s.take(i + 1)).drop_last() == opponents(s.take(i)),
        opponents(s.take(i + 1)).last() == opponent(s[i]),
{
    assert(opponents(s.take(i + 1)) =~= opponents(s.take(i)).push(opponent(s[i])));
}

/// For each opponent character, in the order in which it first occurs in
/// the list, the number of won and of counted battles against it.
pub fn count_wins_by_character(data_list: &Vec<SmashbrosData>) -> (r: Vec<(String, u64, u64)>)
    requires
        all_readable(data_list@),
    ensures
        r@.len() == first_appearances(opponents(data_list@)).len(),
        forall|j: int|
            0 <= j < r@.len() ==> {
                let k = first_appearances(opponents(data_list@))[j];
                &&& (#[trigger] r@[j]).0@ == k
                &&& r@[j].1 == wins_in(data_list@, Some(k))
                &&& r@[j].2 == battles_in(data_list@, Some(k))
            },
{
    let mut result: Vec<(String, u64, u64)> = Vec::new();
    let mut i: usize = 0;
    while i < data_list.len()
        invariant
            all_readable(data_list@),
            i <= data_list@.len(),
            result@.len() == first_appearances(opponents(data_list@.take(i as int))).len(),
            forall|j: int|
                0 <= j < result@.len() ==> {
                    let k = first_appearances(opponents(data_list@.take(i as int)))[j];
                    &&& (#[trigger] result@[j]).0@ == k
                    &&& result@[j].1 == wins_in(data_list@.take(i as int), Some(k))
                    &&& result@[j].2 == battles_in(data_list@.take(i as int), Some(k))
                },
        decreases data_list@.len() - i,
    {
        let ghost s = data_list@;
        let ghost t0 = s.take(i as int);
        let ghost t1 = s.take(i + 1);
        let ghost f0 = first_appearances(opponents(t0));
        proof {
            assert(readable(s[i as int]));
            lemma_opponents_step(s, i as int);
            lemma_first_appearances(opponents(t0));
            lemma_first_appearances(opponents(t1));
        }
        let d = &data_list[i];
        let name = d.get_character(1);
        let (c, w) = tally_one(d);
        let mut found: Option<usize> = None;
        let mut j: usize = 0;
        while j < result.len()
            invariant
                j <= result@.len(),
                found is None ==> forall|q: int| 0 <= q < j ==> (#[trigger] result@[q]).0@ != name@,
                found matches Some(q) ==> q < result@.len() && result@[q as int].0@ == name@,
            decreases result@.len() - j,
        {
            if found.is_none() && result[j].0 == name {
                found = Some(j);
            }
            j = j + 1;
        }
        let ghost old_result = result@;
        match found {
            Some(q) => {
                proof {
                    lemma_tally_bounds(t0, Some(name@));
                    assert(first_appearances(opponents(t1)) == f0) by {
                        assert(f0[q as int] == name@);
                        assert(f0.contains(name@));
                    }
                }
                let key = result[q].0.clone();
                let old_w = result[q].1;
                let old_b = result[q].2;
                let nw: u64 = if w { old_w + 1 } else { old_w };
                let nb: u64 = if c { old_b + 1 } else { old_b };
                result.set(q, (key, nw, nb));
                proof {
                    assert forall|jj: int| 0 <= jj < result@.len() implies {
                        let k = first_appearances(opponents(t1))[jj];
                        &&& (#[trigger] result@[jj]).0@ == k
                        &&& result@[jj].1 == wins_in(t1, Some(k))
                        &&& result@[jj].2 == battles_in(t1, Some(k))
                    } by {
                        lemma_tally_step(s, i as int, Some(f0[jj]));
                        if jj != q {
                            assert(f0[jj] != f0[q as int]);
                        }
                    }
                }
            },
            None => {
                proof {
                    lemma_tally_bounds(t0, Some(name@));
                    if f0.contains(name@) {
                        let q = choose|q: int| 0 <= q < f0.len() && f0[q] == name@;
                        assert(result@[q].0@ == name@);
                    }
                    assert(!opponents(t0).contains(name@));
                    lemma_no_opponent(t0, name@);
                    assert(first_appearances(opponents(t1)) == f0.push(name@));
                }
                let nw: u64 = if w { 1 } else { 0 };
                let nb: u64 = if c { 1 } else { 0 };
                result.push((name, nw, nb));
                proof {
                    assert forall|jj: int| 0 <= jj < result@.len() implies {
                        let k = first_appearances(opponents(t1))[jj];
                        &&& (#[trigger] result@[jj]).0@ == k
                        &&& result@[jj].1 == wins_in(t1, Some(k))
                        &&& result@[jj].2 == battles_in(t1, Some(k))
                    } by {
                        lemma_tally_step(s, i as int, Some(first_appearances(opponents(t1))[jj]));
                        if jj < result@.len() - 1 {
                            assert(f0[jj] != name@);
                            assert(result@[jj] == old_result[jj]);
                        }
                    }
                }
            },
        }
        i = i + 1;
    }
    proof {
        assert(data_list@.take(data_list@.len() as int) =~= data_list@);
    }
    result
}

/// The battles and wins against one character are among all battles and
/// wins.
pub proof fn lemma_character_within_total(s: Seq<SmashbrosData>, c: Seq<char>)
    ensures
        battles_in(s, Some(c)) <= battles_in(s, None),
        wins_in(s, Some(c)) <= wins_in(s, None),
        battles_in(s, None) - battles_in(s, Some(c)) >= wins_in(s, None) - wins_in(s, Some(c)),
    decreases s.len(),
{
    if s.len() > 0 {
        lemma_character_within_total(s.drop_last(), c);
    }
}

/// The counted battles and the wins against each of the characters `keys`,
/// added up.
pub open spec fn sums_over(s: Seq<SmashbrosData>, keys: Seq<Seq<char>>) -> (int, int)
    decreases keys.len(),
{
    if keys.len() == 0 {
        (0, 0)
    } else {
        let rest = sums_over(s, keys.drop_last());
        (rest.0 + battles_in(s, Some(keys.last())), rest.1 + wins_in(s, Some(keys.last())))
    }
}

proof fn lemma_sums_step(s: Seq<SmashbrosData>, keys: Seq<Seq<char>>)
    requires
        s.len() > 0,
        keys.no_duplicates(),
    ensures
        ({
            let t = s.drop_last();
            let d = s.last();
            let here = keys.contains(opponent(d));
            &&& sums_over(s, keys).0 == sums_over(t, keys).0 + if here && counted(d) {
                1int
            } else {
                0int
            }
            &&& sums_over(s, keys).1 == sums_over(t, keys).1 + if here && won(d) {
                1int
            } else {
                0int
            }
        }),
    decreases keys.len(),
{
    if keys.len() > 0 {
        let k0 = keys.drop_last();
        assert(k0.no_duplicates()) by {
            assert forall|a: int, b: int| 0 <= a < k0.len() && 0 <= b < k0.len() && a != b implies k0[a] != k0[b] by {
                assert(k0[a] == keys[a]);
                assert(k0[b] == keys[b]);
            }
        }
        lemma_sums_step(s, k0);
        let o = opponent(s.last());
        assert(keys.contains(o) == (k0.contains(o) || keys.last() == o)) by {
            if keys.contains(o) {
                let i = choose|i: int| 0 <= i < keys.len() && keys[i] == o;
                if i < keys.len() - 1 {
                    assert(k0[i] == o);
                }
            }
            if k0.contains(o) {
                let i = choose|i: int| 0 <= i < k0.len() && k0[i] == o;
                assert(keys[i] == o);
            }
        }
        if k0.contains(o) {
            let i = choose|i: int| 0 <= i < k0.len() && k0[i] == o;
            assert(keys[i] == o);
            assert(keys.last() != o) by {
                assert(keys[keys.len() - 1] == keys.last());
            }
        }
    }
}

/// The battles and the wins against each opponent character, as the
/// statistics by character list them, add up to all counted battles and
/// all wins.
pub proof fn lemma_character_tallies_add_up(s: Seq<SmashbrosData>)
    ensures
        sums_over(s, first_appearances(opponents(s))) == (battles_in(s, None), wins_in(s, None)),
    decreases s.len(),
{
    lemma_first_appearances(opponents(s));
    if s.len() > 0 {
        let t = s.drop_last();
        let d = s.last();
        let o = opponent(d);
        lemma_character_tallies_add_up(t);
        lemma_first_appearances(opponents(t));
        assert(opponents(s).drop_last() =~= opponents(t));
        assert(opponents(s).last() == o);
        let f_t = first_appearances(opponents(t));
        let f_s = first_appearances(opponents(s));
        lemma_sums_step(s, f_s);
        assert(f_s.contains(o)) by {
            assert(opponents(s)[s.len() - 1] == o);
        }
        if f_t.contains(o) {
            assert(f_s == f_t);
        } else {
            assert(f_s == f_t.push(o));
            assert(f_s.drop_last() =~= f_t);
            assert(!opponents(t).contains(o));
            lemma_no_opponent(t, o);
        }
    }
}

} // verus!

