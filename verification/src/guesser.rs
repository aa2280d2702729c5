//! Guessing a value from repeated noisy observations: every observation
//! is counted, the most frequent one is kept, and once it has been seen
//! `border` times the value is decided and further observations are ignored.

use vstd::prelude::*;

verus! {

/// A value that can be observed by a [`ValueGuesser`]: two keys are the same
/// observation exactly when their views are equal.
pub trait GuessKey: View + Sized {
    fn same_key(&self, other: &Self) -> (b: bool)
        ensures
            b == (self@ == other@),
    ;

    fn copy_key(&self) -> (r: Self)
        ensures
            r@ == self@,
    ;
}

impl GuessKey for i32 {
    fn same_key(&self, other: &Self) -> (b: bool) {
        *self == *other
    }

    fn copy_key(&self) -> (r: Self) {
        *self
    }
}

impl GuessKey for String {
    fn same_key(&self, other: &Self) -> (b: bool) {
        *self == *other
    }

    fn copy_key(&self) -> (r: Self) {
        self.clone()
    }
}

/// How often `k` was counted in the association list `s`
/// (the last entry with that key wins; absent keys count 0).
pub open spec fn count_in<K: View>(s: Seq<(K, i32)>, k: K::V) -> int
    decreases s.len(),
{
    if s.len() == 0 {
        0
    } else if s.last().0@ == k {
        s.last().1 as int
    } else {
        count_in(s.drop_last(), k)
    }
}

/// No key occurs twice in the association list.
pub open spec fn keys_distinct<K: View>(s: Seq<(K, i32)>) -> bool {
    forall|i: int, j: int| 0 <= i < j < s.len() ==> s[i].0@ != s[j].0@
}

proof fn lemma_count_push<K: View>(s: Seq<(K, i32)>, e: (K, i32), k: K::V)
    ensures
        count_in(s.push(e), k) == if e.0@ == k {
            e.1 as int
        } else {
            count_in(s, k)
        },
{
    assert(s.push(e).drop_last() =~= s);
}

proof fn lemma_count_absent<K: View>(s: Seq<(K, i32)>, k: K::V)
    requires
        forall|i: int| 0 <= i < s.len() ==> s[i].0@ != k,
    ensures
        count_in(s, k) == 0,
    decreases s.len(),
{
    if s.len() > 0 {
        lemma_count_absent(s.drop_last(), k);
    }
}

proof fn lemma_count_at<K: View>(s: Seq<(K, i32)>, i: int)
    requires
        keys_distinct(s),
        0 <= i < s.len(),
    ensures
        count_in(s, s[i].0@) == s[i].1 as int,
    decreases s.len(),
{
    if i < s.len() - 1 {
        assert(s[i].0@ != s[s.len() - 1].0@);
        assert(s.drop_last()[i] == s[i]);
        lemma_count_at(s.drop_last(), i);
    }
}

proof fn lemma_count_update<K: View>(s: Seq<(K, i32)>, i: int, e: (K, i32), k: K::V)
    requires
        keys_distinct(s),
        0 <= i < s.len(),
        e.0@ == s[i].0@,
    ensures
        count_in(s.update(i, e), k) == if k == e.0@ {
            e.1 as int
        } else {
            count_in(s, k)
        },
    decreases s.len(),
{
    let t = s.update(i, e);
    if i == s.len() - 1 {
        assert(t.drop_last() =~= s.drop_last());
    } else {
        assert(t.drop_last() =~= s.drop_last().update(i, e));
        assert(s[i].0@ != s[s.len() - 1].0@);
        lemma_count_update(s.drop_last(), i, e, k);
    }
}

/// Two association lists hold the same keys (by view) and counts, entry
/// by entry.
pub open spec fn entries_same<K: View>(a: Seq<(K, i32)>, b: Seq<(K, i32)>) -> bool {
    &&& a.len() == b.len()
    &&& forall|i: int| 0 <= i < a.len() ==> (#[trigger] a[i]).0@ == b[i].0@ && a[i].1 == b[i].1
}

proof fn lemma_entries_same_count<K: View>(a: Seq<(K, i32)>, b: Seq<(K, i32)>, k: K::V)
    requires
        entries_same(a, b),
    ensures
        count_in(a, k) == count_in(b, k),
    decreases a.len(),
{
    if a.len() > 0 {
        assert(entries_same(a.drop_last(), b.drop_last())) by {
            assert forall|i: int| 0 <= i < a.drop_last().len() implies (#[trigger] a.drop_last()[i]).0@
                == b.drop_last()[i].0@ && a.drop_last()[i].1 == b.drop_last()[i].1 by {
                assert(a.drop_last()[i] == a[i]);
                assert(b.drop_last()[i] == b[i]);
            }
        }
        assert(a.last() == a[a.len() - 1]);
        assert(b.last() == b[b.len() - 1]);
        lemma_entries_same_count(a.drop_last(), b.drop_last(), k);
    }
}

/// What `set(v)` does to a guesser: `v` becomes the decided guess, with
/// the border as its count.
pub open spec fn set_effect<K: GuessKey>(before: ValueGuesser<K>, after: ValueGuesser<K>, v: K::V) -> bool {
    &&& after.wf()
    &&& after.value() == v
    &&& after.top_count() == before.border()
    &&& after.border() == before.border()
    &&& after.decided()
    &&& forall|k: K::V| #[trigger]
        after.count_of(k) == if k == v {
            before.border()
        } else {
            before.count_of(k)
        }
    &&& before.settled() ==> after.settled()
}

/// What `guess(v)` does to a guesser: nothing once decided; otherwise `v`
/// is counted once more and becomes the guess when its count overtakes the
/// top count.
pub open spec fn guess_effect<K: GuessKey>(before: ValueGuesser<K>, after: ValueGuesser<K>, v: K::V) -> bool {
    &&& after.wf()
    &&& after.border() == before.border()
    &&& before.decided() ==> after == before
    &&& !before.decided() ==> {
        let c = before.count_of(v) + 1;
        &&& forall|k: K::V| #[trigger]
            after.count_of(k) == if k == v {
                c
            } else {
                before.count_of(k)
            }
        &&& if before.top_count() < c {
            after.value() == v && after.top_count() == c
        } else {
            after.value() == before.value() && after.top_count() == before.top_count()
        }
    }
    &&& before.settled() ==> after.settled()
}

/// Keeps, for each observed value, how often it was observed, and the
/// value observed most often (the first to reach the highest count).
#[derive(Clone, Debug)]
pub struct ValueGuesser<K> {
    value_count_list: Vec<(K, i32)>,
    max_value: K,
    max_count: i32,
    max_border: i32,
}

impl<K: GuessKey> ValueGuesser<K> {
    /// How often `k` has been counted.
    pub closed spec fn count_of(&self, k: K::V) -> int {
        count_in(self.value_count_list@, k)
    }

    /// The current best guess.
    pub closed spec fn value(&self) -> K::V {
        self.max_value@
    }

    /// The count of the current best guess.
    pub closed spec fn top_count(&self) -> int {
        self.max_count as int
    }

    /// How many observations decide the value.
    pub closed spec fn border(&self) -> int {
        self.max_border as int
    }

    /// Internal consistency: the count list has one entry per value and the
    /// recorded top count is the count of the best guess.
    pub closed spec fn wf(&self) -> bool {
        &&& keys_distinct(self.value_count_list@)
        &&& self.count_of(self.value()) == self.top_count()
    }

    /// Every count is between zero and the top count, and the top count
    /// does not exceed the border: the state that a guesser built with a
    /// non-negative border keeps under `guess` and `set`.
    pub closed spec fn settled(&self) -> bool {
        &&& 0 <= self.top_count() <= self.border()
        &&& forall|k: K::V| #[trigger] self.count_of(k) <= self.top_count()
    }

    /// The value is decided once the top count reaches the border.
    pub open spec fn decided(&self) -> bool {
        self.border() <= self.top_count()
    }

    /// Two guessers hold the same counts, guess, top count and border.
    pub closed spec fn same(&self, other: Self) -> bool {
        &&& entries_same(self.value_count_list@, other.value_count_list@)
        &&& self.max_value@ == other.max_value@
        &&& self.max_count == other.max_count
        &&& self.max_border == other.max_border
    }

    /// Guessers that hold the same counts give the same answers.
    pub proof fn lemma_same(a: Self, b: Self)
        requires
            a.same(b),
        ensures
            a.value() == b.value(),
            a.top_count() == b.top_count(),
            a.border() == b.border(),
            a.wf() == b.wf(),
            a.settled() == b.settled(),
            a.decided() == b.decided(),
            forall|k: K::V| #[trigger] a.count_of(k) == b.count_of(k),
    {
        assert forall|k: K::V| #[trigger] a.count_of(k) == b.count_of(k) by {
            lemma_entries_same_count(a.value_count_list@, b.value_count_list@, k);
        }
        if a.settled() {
            assert forall|k: K::V| #[trigger] b.count_of(k) <= b.top_count() by {
                assert(a.count_of(k) <= a.top_count());
            }
        }
        if b.settled() {
            assert forall|k: K::V| #[trigger] a.count_of(k) <= a.top_count() by {
                assert(b.count_of(k) <= b.top_count());
            }
        }
        let sa = a.value_count_list@;
        let sb = b.value_count_list@;
        assert(keys_distinct(sa) == keys_distinct(sb)) by {
            if keys_distinct(sa) {
                assert forall|i: int, j: int| 0 <= i < j < sb.len() implies sb[i].0@ != sb[j].0@ by {
                    assert(sa[i].0@ == sb[i].0@);
                    assert(sa[j].0@ == sb[j].0@);
                }
            }
            if keys_distinct(sb) {
                assert forall|i: int, j: int| 0 <= i < j < sa.len() implies sa[i].0@ != sa[j].0@ by {
                    assert(sa[i].0@ == sb[i].0@);
                    assert(sa[j].0@ == sb[j].0@);
                }
            }
        }
    }

    /// A copy of the guesser.
    pub fn duplicate(&self) -> (r: Self)
        ensures
            r.same(*self),
    {
        let mut list: Vec<(K, i32)> = Vec::new();
        let mut i: usize = 0;
        while i < self.value_count_list.len()
            invariant
                i <= self.value_count_list@.len(),
                list@.len() == i,
                forall|j: int| 0 <= j < i ==> (#[trigger] list@[j]).0@ == self.value_count_list@[j].0@ && list@[j].1
                    == self.value_count_list@[j].1,
            decreases self.value_count_list@.len() - i,
        {
            let e = &self.value_count_list[i];
            list.push((e.0.copy_key(), e.1));
            i = i + 1;
        }
        ValueGuesser {
            value_count_list: list,
            max_value: self.max_value.copy_key(),
            max_count: self.max_count,
            max_border: self.max_border,
        }
    }

    /// A guesser with `value` as initial guess, nothing counted, border 5.
    pub fn new(value: K) -> (r: Self)
        ensures
            r.wf(),
            r.settled(),
            r.value() == value@,
            r.top_count() == 0,
            r.border() == 5,
            forall|k: K::V| #[trigger] r.count_of(k) == 0,
    {
        let r = ValueGuesser { value_count_list: Vec::new(), max_value: value, max_count: 0, max_border: 5 };
        proof {
            assert forall|k: K::V| #[trigger] r.count_of(k) == 0 by {
                lemma_count_absent(r.value_count_list@, k);
            }
        }
        r
    }

    /// Sets how many observations decide the value (builder style).
    pub fn set_border(self, max_border: i32) -> (r: Self)
        ensures
            r.value() == self.value(),
            r.top_count() == self.top_count(),
            r.border() == max_border,
            forall|k: K::V| #[trigger] r.count_of(k) == self.count_of(k),
            self.wf() ==> r.wf(),
            self.settled() && self.top_count() <= max_border ==> r.settled(),
    {
        let ghost old_self = self;
        let mut r = self;
        r.max_border = max_border;
        proof {
            if old_self.settled() && old_self.top_count() <= max_border {
                assert forall|k: K::V| #[trigger] r.count_of(k) <= r.top_count() by {
                    assert(old_self.count_of(k) <= old_self.top_count());
                }
            }
        }
        r
    }

    /// Whether the value is decided.
    pub fn is_decided(&self) -> (b: bool)
        ensures
            b == self.decided(),
    {
        self.max_border <= self.max_count
    }

    /// The value observed most often.
    pub fn get(&self) -> (r: K)
        ensures
            r@ == self.value(),
    {
        self.max_value.copy_key()
    }

    fn find_index(&self, value: &K) -> (r: Option<usize>)
        ensures
            match r {
                Some(i) => i < self.value_count_list@.len() && self.value_count_list@[i as int].0@
                    == value@,
                None => forall|i: int|
                    0 <= i < self.value_count_list@.len() ==> self.value_count_list@[i].0@ != value@,
            },
    {
        let mut i: usize = 0;
        while i < self.value_count_list.len()
            invariant
                i <= self.value_count_list@.len(),
                forall|j: int| 0 <= j < i ==> self.value_count_list@[j].0@ != value@,
            decreases self.value_count_list@.len() - i,
        {
            if self.value_count_list[i].0.same_key(value) {
                return Some(i);
            }
            i = i + 1;
        }
        None
    }

    /// Forces the value: it becomes the guess, decided, with the border as its count.
    pub fn set(&mut self, value: K)
        requires
            old(self).wf(),
        ensures
            set_effect(*old(self), *final(self), value@),
    {
        let ghost old_list = self.value_count_list@;
        let ghost v = value@;
        let border = self.max_border;
        match self.find_index(&value) {
            Some(i) => {
                let k = value.copy_key();
                self.value_count_list.set(i, (k, border));
                proof {
                    assert forall|k: K::V| #[trigger]
                        count_in(self.value_count_list@, k) == if k == value@ {
                            border as int
                        } else {
                            count_in(old_list, k)
                        } by {
                        lemma_count_update(old_list, i as int, self.value_count_list@[i as int], k);
                    }
                }
            },
            None => {
                let k = value.copy_key();
                self.value_count_list.push((k, border));
                proof {
                    assert forall|k: K::V| #[trigger]
                        count_in(self.value_count_list@, k) == if k == value@ {
                            border as int
                        } else {
                            count_in(old_list, k)
                        } by {
                        lemma_count_push(old_list, self.value_count_list@.last(), k);
                    }
                }
            },
        }
        self.max_count = border;
        self.max_value = value;
        proof {
            if old(self).settled() {
                assert forall|k: K::V| #[trigger] self.count_of(k) <= self.top_count() by {
                    if k != v {
                        assert(old(self).count_of(k) <= old(self).top_count());
                    }
                }
            }
        }
    }

    /// Counts one observation of `value`, unless the value is already
    /// decided; the observed value becomes the guess when its count
    /// overtakes the top count.
    pub fn guess(&mut self, value: &K)
        requires
            old(self).wf(),
            old(self).decided() || old(self).settled() || old(self).count_of(value@) < i32::MAX,
        ensures
            guess_effect(*old(self), *final(self), value@),
    {
        if self.is_decided() {
            return;
        }
        let ghost old_list = self.value_count_list@;
        let ghost v = value@;
        proof {
            if old(self).settled() {
                assert(old(self).count_of(v) <= old(self).top_count());
            }
        }
        let c: i32;
        match self.find_index(value) {
            Some(i) => {
                proof {
                    lemma_count_at(old_list, i as int);
                }
                c = self.value_count_list[i].1 + 1;
                let k = value.copy_key();
                self.value_count_list.set(i, (k, c));
                proof {
                    assert forall|k: K::V| #[trigger]
                        count_in(self.value_count_list@, k) == if k == v {
                            c as int
                        } else {
                            count_in(old_list, k)
                        } by {
                        lemma_count_update(old_list, i as int, self.value_count_list@[i as int], k);
                    }
                }
            },
            None => {
                proof {
                    lemma_count_absent(old_list, v);
                }
                c = 1;
                let k = value.copy_key();
                self.value_count_list.push((k, c));
                proof {
                    assert forall|k: K::V| #[trigger]
                        count_in(self.value_count_list@, k) == if k == v {
                            c as int
                        } else {
                            count_in(old_list, k)
                        } by {
                        lemma_count_push(old_list, self.value_count_list@.last(), k);
                    }
                }
            },
        }
        if self.max_count < c {
            self.max_value = value.copy_key();
            self.max_count = c;
        }
        proof {
            if old(self).settled() {
                assert forall|k: K::V| #[trigger] self.count_of(k) <= self.top_count() by {
                    if k != v {
                        assert(old(self).count_of(k) <= old(self).top_count());
                    }
                }
            }
        }
    }
}

/// The guess is the value counted most often: no value has been counted
/// more often than the guess.
pub proof fn lemma_value_most_frequent<K: GuessKey>(g: ValueGuesser<K>, k: K::V)
    requires
        g.wf(),
        g.settled(),
    ensures
        g.count_of(k) <= g.count_of(g.value()),
{
}

/// Once a guesser is decided, further observations are ignored.
pub proof fn lemma_decided_ignores<K: GuessKey>(before: ValueGuesser<K>, after: ValueGuesser<K>, v: K::V)
    requires
        guess_effect(before, after, v),
        before.decided(),
    ensures
        after == before,
        after.decided(),
        after.value() == before.value(),
{
}

/// The observation that brings a value's count up to the border decides
/// the guesser on that value.
pub proof fn lemma_border_decides<K: GuessKey>(before: ValueGuesser<K>, after: ValueGuesser<K>, v: K::V)
    requires
        before.settled(),
        !before.decided(),
        before.count_of(v) + 1 >= before.border(),
        guess_effect(before, after, v),
    ensures
        after.decided(),
        after.value() == v,
{
}

/// An undecided guesser becomes decided only on the value just observed.
pub proof fn lemma_decides_on_observed<K: GuessKey>(before: ValueGuesser<K>, after: ValueGuesser<K>, v: K::V)
    requires
        !before.decided(),
        guess_effect(before, after, v),
        after.decided(),
    ensures
        after.value() == v,
{
}


/// How many of the first `n` guesses of a run were of `k` and made while
/// the guesser was not yet decided: the guesses that counted.
pub open spec fn counted_guesses<K: GuessKey>(states: Seq<ValueGuesser<K>>, xs: Seq<K::V>, n: int, k: K::V) -> int
    decreases n,
{
    if n <= 0 {
        0
    } else {
        counted_guesses(states, xs, n - 1, k) + if xs[n - 1] == k && !states[n - 1].decided() {
            1int
        } else {
            0int
        }
    }
}

/// A run of guesses `xs` from a fresh guesser `states[0]` (nothing counted,
/// a border of at least one), `states[i + 1]` following `guess(xs[i])`.
pub open spec fn guess_run<K: GuessKey>(states: Seq<ValueGuesser<K>>, xs: Seq<K::V>) -> bool {
    &&& states.len() == xs.len() + 1
    &&& states[0].wf()
    &&& states[0].settled()
    &&& states[0].top_count() == 0
    &&& states[0].border() >= 1
    &&& forall|k: K::V| #[trigger] states[0].count_of(k) == 0
    &&& forall|i: int| 0 <= i < xs.len() ==> guess_effect(states[i], states[i + 1], #[trigger] xs[i])
}

/// The counting law of a guesser over a run of guesses: each value's count
/// is the number of its guesses made while the guesser was undecided; the
/// guess is a value counted most often and the first to reach that count
/// (the initial value while nothing counted); and the guesser is decided
/// exactly when the guess's count has reached the border.
pub proof fn lemma_guess_run<K: GuessKey>(states: Seq<ValueGuesser<K>>, xs: Seq<K::V>)
    requires
        guess_run(states, xs),
    ensures
        ({
            let e = states.last();
            let n = xs.len() as int;
            let top = counted_guesses(states, xs, n, e.value());
            &&& forall|k: K::V| #[trigger] e.count_of(k) == counted_guesses(states, xs, n, k)
            &&& forall|k: K::V| #[trigger] counted_guesses(states, xs, n, k) <= top
            &&& e.decided() <==> top >= e.border()
            &&& top == 0 ==> e.value() == states[0].value()
            &&& top > 0 ==> exists|i: int|
                0 <= i < n && #[trigger] xs[i] == e.value() && counted_guesses(states, xs, i + 1, e.value()) == top
                    && forall|k: K::V| #[trigger] counted_guesses(states, xs, i, k) < top
        }),
{
    let n = xs.len() as int;
    lemma_guess_run_prefix(states, xs, n);
    let e = states[n];
    assert(e == states.last());
    assert forall|k: K::V| #[trigger] counted_guesses(states, xs, n, k) <= counted_guesses(states, xs, n, e.value()) by {
        assert(e.count_of(k) <= e.top_count());
        assert(e.count_of(e.value()) == e.top_count());
    }
}

proof fn lemma_guess_run_prefix<K: GuessKey>(states: Seq<ValueGuesser<K>>, xs: Seq<K::V>, n: int)
    requires
        guess_run(states, xs),
        0 <= n <= xs.len(),
    ensures
        states[n].wf(),
        states[n].settled(),
        states[n].border() == states[0].border(),
        forall|k: K::V| #[trigger] states[n].count_of(k) == counted_guesses(states, xs, n, k),
        states[n].top_count() == 0 ==> states[n].value() == states[0].value(),
        states[n].top_count() > 0 ==> exists|i: int|
            0 <= i < n && #[trigger] xs[i] == states[n].value() && counted_guesses(states, xs, i + 1, states[n].value())
                == states[n].top_count() && forall|k: K::V| #[trigger] counted_guesses(states, xs, i, k)
                < states[n].top_count(),
    decreases n,
{
    if n > 0 {
        let m = n - 1;
        lemma_guess_run_prefix(states, xs, m);
        let b = states[m];
        let a = states[n];
        let x = xs[m];
        assert(guess_effect(b, a, x));
        assert forall|k: K::V| #[trigger] a.count_of(k) == counted_guesses(states, xs, n, k) by {
            assert(b.count_of(k) == counted_guesses(states, xs, m, k));
        }
        if !b.decided() && b.top_count() < b.count_of(x) + 1 {
            assert(a.value() == x);
            assert(counted_guesses(states, xs, n, x) == a.top_count());
            assert forall|k: K::V| #[trigger] counted_guesses(states, xs, m, k) < a.top_count() by {
                assert(b.count_of(k) <= b.top_count());
                assert(b.count_of(k) == counted_guesses(states, xs, m, k));
            }
            assert(xs[m] == a.value());
        } else if b.top_count() > 0 {
            let i = choose|i: int|
                0 <= i < m && #[trigger] xs[i] == b.value() && counted_guesses(states, xs, i + 1, b.value())
                    == b.top_count() && forall|k: K::V| #[trigger] counted_guesses(states, xs, i, k) < b.top_count();
            assert(xs[i] == a.value());
        }
    }
}

} // verus!

