//! The record of one battle: who plays which character, the rule and its
//! limits, and the stocks, placings and power of each player, each guessed
//! from many captured frames.

use vstd::prelude::*;
use crate::guesser::{GuessKey, ValueGuesser, set_effect, guess_effect};
use crate::clock;


verus! {

/// The team colour of a player.
#[derive(Debug, Clone, Copy, PartialEq, Eq, Structural, Hash)]
pub enum PlayerGroup {
    Unknown,
    Red,
    Blue,
    Green,
    Yellow,
}

impl View for PlayerGroup {
    type V = PlayerGroup;

    open spec fn view(&self) -> PlayerGroup {
        *self
    }
}

impl GuessKey for PlayerGroup {
    fn same_key(&self, other: &Self) -> (b: bool) {
        *self == *other
    }

    fn copy_key(&self) -> (r: Self) {
        *self
    }
}

/// The group that a stored group name stands for.
pub open spec fn group_of_name(s: Seq<char>) -> PlayerGroup {
    if s == "Red"@ {
        PlayerGroup::Red
    } else if s == "Blue"@ {
        PlayerGroup::Blue
    } else if s == "Green"@ {
        PlayerGroup::Green
    } else if s == "Yellow"@ {
        PlayerGroup::Yellow
    } else {
        PlayerGroup::Unknown
    }
}

pub(crate) fn same_text(a: &str, b: &str) -> (r: bool)
    ensures
        r == (a@ == b@),
{
    let x = String::from_str(a);
    let y = String::from_str(b);
    x == y
}

impl PlayerGroup {
    /// Reads a stored group name; anything unrecognised is `Unknown`.
    pub fn from_name(s: &str) -> (r: PlayerGroup)
        ensures
            r == group_of_name(s@),
    {
        if same_text(s, "Red") {
            PlayerGroup::Red
        } else if same_text(s, "Blue") {
            PlayerGroup::Blue
        } else if same_text(s, "Green") {
            PlayerGroup::Green
        } else if same_text(s, "Yellow") {
            PlayerGroup::Yellow
        } else {
            PlayerGroup::Unknown
        }
    }
}

/// The rule of a battle.
/// Time: a time limit of 2, 2:30 or 3 minutes, stocks counted up.
/// Stock: a time limit of 3 to 7 minutes and 1 to 3 stocks.
/// Stamina: as Stock, and a hit-point limit of 100 to 300.
#[derive(Debug, Clone, Copy, PartialEq, Eq, Structural)]
pub enum BattleRule {
    Unknown,
    Time,
    Stock,
    Stamina,
}

/// The rule that a stored rule name stands for.
pub open spec fn rule_of_name(s: Seq<char>) -> BattleRule {
    if s == "Time"@ {
        BattleRule::Time
    } else if s == "Stock"@ {
        BattleRule::Stock
    } else if s == "Stamina"@ {
        BattleRule::Stamina
    } else {
        BattleRule::Unknown
    }
}

impl BattleRule {
    /// Reads a stored rule name; anything unrecognised is `Unknown`.
    pub fn from_name(s: &str) -> (r: BattleRule)
        ensures
            r == rule_of_name(s@),
    {
        if same_text(s, "Time") {
            BattleRule::Time
        } else if same_text(s, "Stock") {
            BattleRule::Stock
        } else if same_text(s, "Stamina") {
            BattleRule::Stamina
        } else {
            BattleRule::Unknown
        }
    }
}

/// The character name of a player that is not known yet.
pub open spec fn unknown_name() -> Seq<char> {
    "unknown"@
}

/// The character name of a player that is not known yet.
pub fn character_name_unknown() -> (s: String)
    ensures
        s@ == unknown_name(),
{
    String::from_str("unknown")
}

/// A guesser that has counted nothing yet.
pub open spec fn fresh<K: GuessKey>(g: ValueGuesser<K>, v: K::V, border: int) -> bool {
    &&& g.wf()
    &&& g.settled()
    &&& g.value() == v
    &&& g.top_count() == 0
    &&& g.border() == border
    &&& forall|k: K::V| #[trigger] g.count_of(k) == 0
}

/// `n` guessers that have counted nothing yet.
pub open spec fn all_fresh<K: GuessKey>(s: Seq<ValueGuesser<K>>, n: int, v: K::V, border: int) -> bool {
    &&& s.len() == n
    &&& forall|i: int| #![trigger s[i]] 0 <= i < s.len() ==> fresh(s[i], v, border)
}

/// Guessers that are consistent and settled.
pub open spec fn all_sound<K: GuessKey>(s: Seq<ValueGuesser<K>>) -> bool {
    forall|i: int| #![trigger s[i]] 0 <= i < s.len() ==> s[i].wf() && s[i].settled()
}

/// Whether the rule rules out `stock` as a stock count.
pub open spec fn rule_rejects_stock(rule: BattleRule, stock: int) -> bool {
    (rule == BattleRule::Stock || rule == BattleRule::Stamina) && (stock < 1 || 3 < stock)
}

/// Whether the rule rules out `secs` as a time limit in seconds.
pub open spec fn rule_rejects_time(rule: BattleRule, secs: int) -> bool {
    ||| rule == BattleRule::Time && (secs < 2 * 60 || 3 * 60 < secs)
    ||| (rule == BattleRule::Stock || rule == BattleRule::Stamina) && (secs < 3 * 60 || 7 * 60 < secs)
}

/// The value of guesser `p` of a per-player list, or `-1` when there is none.
pub open spec fn value_or_minus_one(s: Seq<ValueGuesser<i32>>, p: int) -> i32 {
    if 0 <= p < s.len() {
        s[p].value()
    } else {
        -1i32
    }
}

/// The fields of two records that describe the battle, apart from the
/// per-player lists, are equal.
pub open spec fn header_same(a: SmashbrosData, b: SmashbrosData) -> bool {
    &&& a.id() == b.id()
    &&& a.saved_time() == b.saved_time()
    &&& a.start_time() == b.start_time()
    &&& a.end_time() == b.end_time()
    &&& a.player_count() == b.player_count()
    &&& a.rule() == b.rule()
    &&& a.max_time() == b.max_time()
}

/// The per-player lists of two records are equal.
pub open spec fn lists_same(a: SmashbrosData, b: SmashbrosData) -> bool {
    &&& a.max_stocks() == b.max_stocks()
    &&& a.max_hps() == b.max_hps()
    &&& a.charas() == b.charas()
    &&& a.groups() == b.groups()
    &&& a.stocks() == b.stocks()
    &&& a.orders() == b.orders()
    &&& a.powers() == b.powers()
}

/// `after` is `before` with guesser `p` replaced by one on which `set(v)` was done.
pub open spec fn list_set<K: GuessKey>(before: Seq<ValueGuesser<K>>, after: Seq<ValueGuesser<K>>, p: int, v: K::V) -> bool {
    &&& 0 <= p < before.len()
    &&& after == before.update(p, after[p])
    &&& set_effect(before[p], after[p], v)
}

/// `after` is `before` with guesser `p` replaced by one on which `guess(v)` was done.
pub open spec fn list_guess<K: GuessKey>(before: Seq<ValueGuesser<K>>, after: Seq<ValueGuesser<K>>, p: int, v: K::V) -> bool {
    &&& 0 <= p < before.len()
    &&& after == before.update(p, after[p])
    &&& guess_effect(before[p], after[p], v)
}

proof fn lemma_sound_update<K: GuessKey>(s: Seq<ValueGuesser<K>>, p: int, g: ValueGuesser<K>)
    requires
        all_sound(s),
        0 <= p < s.len(),
        g.wf(),
        g.settled(),
    ensures
        all_sound(s.update(p, g)),
{
    assert forall|i: int| 0 <= i < s.update(p, g).len() implies #[trigger] s.update(p, g)[i].wf()
        && s.update(p, g)[i].settled() by {
        if i != p {
            assert(s[i].wf() && s[i].settled());
        }
    }
}

/// The text of an optional string.
pub open spec fn opt_view(o: Option<String>) -> Option<Seq<char>> {
    match o {
        Some(s) => Some(s@),
        None => None,
    }
}

/// Two lists of guessers hold the same guessers, one by one.
pub open spec fn guessers_same<K: GuessKey>(a: Seq<ValueGuesser<K>>, b: Seq<ValueGuesser<K>>) -> bool {
    &&& a.len() == b.len()
    &&& forall|i: int| 0 <= i < a.len() ==> (#[trigger] a[i]).same(b[i])
}

/// Two optional lists of guessers are both missing, or hold the same guessers.
pub open spec fn opt_guessers_same<K: GuessKey>(a: Option<Seq<ValueGuesser<K>>>, b: Option<Seq<ValueGuesser<K>>>) -> bool {
    match (a, b) {
        (Some(x), Some(y)) => guessers_same(x, y),
        (None, None) => true,
        _ => false,
    }
}

/// `copy` holds the same record as `orig`.
pub open spec fn copy_of(copy: SmashbrosData, orig: SmashbrosData) -> bool {
    &&& header_same(copy, orig)
    &&& opt_guessers_same(copy.max_stocks(), orig.max_stocks())
    &&& opt_guessers_same(copy.max_hps(), orig.max_hps())
    &&& guessers_same(copy.charas(), orig.charas())
    &&& guessers_same(copy.groups(), orig.groups())
    &&& guessers_same(copy.stocks(), orig.stocks())
    &&& guessers_same(copy.orders(), orig.orders())
    &&& guessers_same(copy.powers(), orig.powers())
}

fn duplicate_list<K: GuessKey>(v: &Vec<ValueGuesser<K>>) -> (r: Vec<ValueGuesser<K>>)
    ensures
        guessers_same(r@, v@),
{
    let mut r: Vec<ValueGuesser<K>> = Vec::new();
    let mut i: usize = 0;
    while i < v.len()
        invariant
            i <= v@.len(),
            r@.len() == i,
            forall|j: int| 0 <= j < i ==> (#[trigger] r@[j]).same(v@[j]),
        decreases v@.len() - i,
    {
        r.push(v[i].duplicate());
        i = i + 1;
    }
    r
}

fn duplicate_opt_list<K: GuessKey>(v: &Option<Vec<ValueGuesser<K>>>) -> (r: Option<Vec<ValueGuesser<K>>>)
    ensures
        match (r, *v) {
            (Some(x), Some(y)) => guessers_same(x@, y@),
            (None, None) => true,
            _ => false,
        },
{
    match v {
        Some(list) => Some(duplicate_list(list)),
        None => None,
    }
}

/// The number of players as a list length (negative counts give none).
pub open spec fn n_slots(n: int) -> int {
    if n > 0 {
        n
    } else {
        0
    }
}

fn fresh_i32_list(n: i32, border: i32) -> (v: Vec<ValueGuesser<i32>>)
    requires
        0 <= border,
    ensures
        all_fresh(v@, n_slots(n as int), -1i32, border as int),
{
    let mut v: Vec<ValueGuesser<i32>> = Vec::new();
    let mut i: i32 = 0;
    while i < n
        invariant
            0 <= i,
            0 <= border,
            n >= 0 ==> i <= n,
            n < 0 ==> i == 0,
            all_fresh(v@, i as int, -1i32, border as int),
        decreases n - i,
    {
        let g = ValueGuesser::new(-1i32).set_border(border);
        v.push(g);
        proof {
            assert(fresh(v@[i as int], -1i32, border as int));
        }
        i = i + 1;
    }
    v
}

fn fresh_name_list(n: i32, name: &String) -> (v: Vec<ValueGuesser<String>>)
    ensures
        all_fresh(v@, n_slots(n as int), name@, 5),
{
    let mut v: Vec<ValueGuesser<String>> = Vec::new();
    let mut i: i32 = 0;
    while i < n
        invariant
            0 <= i,
            n >= 0 ==> i <= n,
            n < 0 ==> i == 0,
            all_fresh(v@, i as int, name@, 5),
        decreases n - i,
    {
        v.push(ValueGuesser::new(name.clone()));
        proof {
            assert(fresh(v@[i as int], name@, 5));
        }
        i = i + 1;
    }
    v
}

fn fresh_group_list(n: i32) -> (v: Vec<ValueGuesser<PlayerGroup>>)
    ensures
        all_fresh(v@, n_slots(n as int), PlayerGroup::Unknown, 5),
{
    let mut v: Vec<ValueGuesser<PlayerGroup>> = Vec::new();
    let mut i: i32 = 0;
    while i < n
        invariant
            0 <= i,
            n >= 0 ==> i <= n,
            n < 0 ==> i == 0,
            all_fresh(v@, i as int, PlayerGroup::Unknown, 5),
        decreases n - i,
    {
        v.push(ValueGuesser::new(PlayerGroup::Unknown));
        proof {
            assert(fresh(v@[i as int], PlayerGroup::Unknown, 5));
        }
        i = i + 1;
    }
    v
}

proof fn lemma_fresh_sound<K: GuessKey>(s: Seq<ValueGuesser<K>>, n: int, v: K::V, border: int)
    requires
        all_fresh(s, n, v, border),
    ensures
        all_sound(s),
{
    assert forall|i: int| #![trigger s[i]] 0 <= i < s.len() implies s[i].wf() && s[i].settled() by {
        assert(fresh(s[i], v, border));
    }
}

/// A guesser on which only `set(v)` was done after it was made with border 5.
pub open spec fn fixed_group(g: ValueGuesser<PlayerGroup>, v: PlayerGroup) -> bool {
    &&& g.wf()
    &&& g.settled()
    &&& g.value() == v
    &&& g.top_count() == 5
    &&& g.border() == 5
    &&& forall|k: PlayerGroup| #[trigger]
        g.count_of(k) == if k == v {
            5int
        } else {
            0int
        }
}

/// Whether `name` is one of the names in `list`.
pub open spec fn names_contain(list: Seq<String>, name: Seq<char>) -> bool {
    exists|i: int| 0 <= i < list.len() && #[trigger] list[i]@ == name
}

fn list_contains(list: &Vec<String>, name: &String) -> (b: bool)
    ensures
        b == names_contain(list@, name@),
{
    let mut i: usize = 0;
    while i < list.len()
        invariant
            i <= list@.len(),
            forall|j: int| 0 <= j < i ==> #[trigger] list@[j]@ != name@,
        decreases list@.len() - i,
    {
        if list[i] == *name {
            return true;
        }
        i = i + 1;
    }
    false
}

/// The guessed values of a list of guessers.
pub open spec fn guess_values(s: Seq<ValueGuesser<i32>>) -> Seq<int> {
    s.map_values(|g: ValueGuesser<i32>| g.value() as int)
}

/// The largest element of a non-empty sequence.
pub open spec fn seq_max(s: Seq<int>) -> int
    decreases s.len(),
{
    if s.len() <= 1 {
        s[0]
    } else if seq_max(s.drop_last()) < s.last() {
        s.last()
    } else {
        seq_max(s.drop_last())
    }
}

/// The last index at which `v` occurs in `s`, -1 when it does not.
pub open spec fn last_index_of(s: Seq<int>, v: int) -> int
    decreases s.len(),
{
    if s.len() == 0 {
        -1
    } else if s.last() == v {
        s.len() - 1
    } else {
        last_index_of(s.drop_last(), v)
    }
}

proof fn lemma_seq_max_in(s: Seq<int>)
    requires
        s.len() > 0,
    ensures
        exists|i: int| 0 <= i < s.len() && s[i] == seq_max(s),
        forall|i: int| 0 <= i < s.len() ==> s[i] <= seq_max(s),
    decreases s.len(),
{
    if s.len() == 1 {
        assert(s[0] == seq_max(s));
    } else {
        lemma_seq_max_in(s.drop_last());
        let w = choose|i: int| 0 <= i < s.drop_last().len() && s.drop_last()[i] == seq_max(s.drop_last());
        assert(s[w] == s.drop_last()[w]);
        if seq_max(s.drop_last()) < s.last() {
            assert(s[s.len() - 1] == seq_max(s));
        } else {
            assert(s[w] == seq_max(s));
        }
        assert forall|i: int| 0 <= i < s.len() implies s[i] <= seq_max(s) by {
            if i < s.len() - 1 {
                assert(s[i] == s.drop_last()[i]);
            }
        }
    }
}

proof fn lemma_last_index_of(s: Seq<int>, v: int, w: int)
    requires
        0 <= w < s.len(),
        s[w] == v,
    ensures
        w <= last_index_of(s, v) < s.len(),
        s[last_index_of(s, v)] == v,
    decreases s.len(),
{
    if s.last() != v {
        assert(s.drop_last()[w] == s[w]);
        lemma_last_index_of(s.drop_last(), v, w);
        let k = last_index_of(s.drop_last(), v);
        assert(s.drop_last()[k] == s[k]);
    }
}

proof fn lemma_seq_max_step(s: Seq<int>, i: int)
    requires
        1 <= i < s.len(),
    ensures
        seq_max(s.take(i + 1)) == if seq_max(s.take(i)) < s[i] {
            s[i]
        } else {
            seq_max(s.take(i))
        },
{
    assert(s.take(i + 1).drop_last() =~= s.take(i));
}

proof fn lemma_last_index_step(s: Seq<int>, v: int, i: int)
    requires
        0 <= i < s.len(),
    ensures
        last_index_of(s.take(i + 1), v) == if s[i] == v {
            i
        } else {
            last_index_of(s.take(i), v)
        },
{
    assert(s.take(i + 1).drop_last() =~= s.take(i));
}

/// The placing of each of the first `n` players is decided.
pub open spec fn orders_all_decided(s: Seq<ValueGuesser<i32>>, n: int) -> bool {
    forall|q: int| 0 <= q < n ==> s.len() > 0 && #[trigger] s[q].decided()
}

/// The data of one battle.
#[derive(Debug, Clone)]
pub struct SmashbrosData {
    db_collection_id: Option<String>,
    saved_time: Option<i64>,
    start_time: Option<i64>,
    end_time: Option<i64>,
    player_count: i32,
    rule_name: BattleRule,
    max_time: Option<u64>,
    max_stock_list: Option<Vec<ValueGuesser<i32>>>,
    max_hp_list: Option<Vec<ValueGuesser<i32>>>,
    chara_list: Vec<ValueGuesser<String>>,
    group_list: Vec<ValueGuesser<PlayerGroup>>,
    stock_list: Vec<ValueGuesser<i32>>,
    order_list: Vec<ValueGuesser<i32>>,
    power_list: Vec<ValueGuesser<i32>>,
}

impl SmashbrosData {
    /// The key under which the record was stored.
    pub closed spec fn id(&self) -> Option<Seq<char>> {
        match self.db_collection_id {
            Some(s) => Some(s@),
            None => None,
        }
    }

    /// When the record was last stored (milliseconds).
    pub closed spec fn saved_time(&self) -> Option<i64> {
        self.saved_time
    }

    /// When the battle started (milliseconds).
    pub closed spec fn start_time(&self) -> Option<i64> {
        self.start_time
    }

    /// When the battle ended (milliseconds).
    pub closed spec fn end_time(&self) -> Option<i64> {
        self.end_time
    }

    pub closed spec fn player_count(&self) -> int {
        self.player_count as int
    }

    pub closed spec fn rule(&self) -> BattleRule {
        self.rule_name
    }

    /// The time limit in seconds.
    pub closed spec fn max_time(&self) -> Option<u64> {
        self.max_time
    }

    pub closed spec fn max_stocks(&self) -> Option<Seq<ValueGuesser<i32>>> {
        match self.max_stock_list {
            Some(v) => Some(v@),
            None => None,
        }
    }

    pub closed spec fn max_hps(&self) -> Option<Seq<ValueGuesser<i32>>> {
        match self.max_hp_list {
            Some(v) => Some(v@),
            None => None,
        }
    }

    pub closed spec fn charas(&self) -> Seq<ValueGuesser<String>> {
        self.chara_list@
    }

    pub closed spec fn groups(&self) -> Seq<ValueGuesser<PlayerGroup>> {
        self.group_list@
    }

    pub closed spec fn stocks(&self) -> Seq<ValueGuesser<i32>> {
        self.stock_list@
    }

    pub closed spec fn orders(&self) -> Seq<ValueGuesser<i32>> {
        self.order_list@
    }

    pub closed spec fn powers(&self) -> Seq<ValueGuesser<i32>> {
        self.power_list@
    }

    /// The number of per-player slots.
    pub open spec fn slots(&self) -> int {
        self.charas().len() as int
    }

    /// Shape of the record: every per-player list has one guesser per
    /// slot, and every guesser is consistent and settled.
    pub open spec fn wf(&self) -> bool {
        &&& self.groups().len() == self.slots()
        &&& self.stocks().len() == self.slots()
        &&& self.orders().len() == self.slots()
        &&& self.powers().len() == self.slots()
        &&& all_sound(self.charas())
        &&& all_sound(self.groups())
        &&& all_sound(self.stocks())
        &&& all_sound(self.orders())
        &&& all_sound(self.powers())
        &&& match self.max_stocks() {
            Some(s) => s.len() == self.slots() && all_sound(s),
            None => true,
        }
        &&& match self.max_hps() {
            Some(s) => s.len() == self.slots() && all_sound(s),
            None => true,
        }
    }

    /// The fields that describe the battle itself are as for a fresh record
    /// of `n` players whose names and values are not known yet.
    pub open spec fn battle_lists_fresh(&self, n: int, name: Seq<char>, stock_border: int) -> bool {
        &&& all_fresh(self.charas(), n, name, 5)
        &&& all_fresh(self.groups(), n, PlayerGroup::Unknown, 5)
        &&& all_fresh(self.stocks(), n, -1i32, stock_border)
        &&& all_fresh(self.orders(), n, -1i32, 5)
        &&& all_fresh(self.powers(), n, -1i32, 5)
    }

    /// A record that holds no battle yet: no key, times, players, rule or
    /// limits, and one slot of guessers that have seen nothing.
    pub open spec fn fresh_record(&self) -> bool {
        &&& self.wf()
        &&& self.id() == None::<Seq<char>>
        &&& self.saved_time() == None::<i64>
        &&& self.start_time() == None::<i64>
        &&& self.end_time() == None::<i64>
        &&& self.player_count() == 0
        &&& self.rule() == BattleRule::Unknown
        &&& self.max_time() == None::<u64>
        &&& self.max_stocks() == None::<Seq<ValueGuesser<i32>>>
        &&& self.max_hps() == None::<Seq<ValueGuesser<i32>>>
        &&& self.battle_lists_fresh(1, Seq::<char>::empty(), 5)
    }

    /// A record that holds no battle yet.
    pub fn new() -> (r: Self)
        ensures
            r.fresh_record(),
    {
        let mut chara_list: Vec<ValueGuesser<String>> = Vec::new();
        chara_list.push(ValueGuesser::new(String::new()));
        let mut group_list: Vec<ValueGuesser<PlayerGroup>> = Vec::new();
        group_list.push(ValueGuesser::new(PlayerGroup::Unknown));
        let mut stock_list: Vec<ValueGuesser<i32>> = Vec::new();
        stock_list.push(ValueGuesser::new(-1i32));
        let mut order_list: Vec<ValueGuesser<i32>> = Vec::new();
        order_list.push(ValueGuesser::new(-1i32));
        let mut power_list: Vec<ValueGuesser<i32>> = Vec::new();
        power_list.push(ValueGuesser::new(-1i32));
        let r = SmashbrosData {
            db_collection_id: None,
            saved_time: None,
            start_time: None,
            end_time: None,
            player_count: 0,
            rule_name: BattleRule::Unknown,
            max_time: None,
            max_stock_list: None,
            max_hp_list: None,
            chara_list,
            group_list,
            stock_list,
            order_list,
            power_list,
        };
        proof {
            assert(fresh(r.charas()[0], Seq::<char>::empty(), 5));
            assert(fresh(r.groups()[0], PlayerGroup::Unknown, 5));
            assert(fresh(r.stocks()[0], -1i32, 5));
            assert(fresh(r.orders()[0], -1i32, 5));
            assert(fresh(r.powers()[0], -1i32, 5));
        }
        r
    }

    // ---- getters ----

    /// A copy of the record.
    pub fn duplicate(&self) -> (r: Self)
        ensures
            copy_of(r, *self),
    {
        SmashbrosData {
            db_collection_id: match &self.db_collection_id {
                Some(s) => Some(s.clone()),
                None => None,
            },
            saved_time: self.saved_time,
            start_time: self.start_time,
            end_time: self.end_time,
            player_count: self.player_count,
            rule_name: self.rule_name,
            max_time: self.max_time,
            max_stock_list: duplicate_opt_list(&self.max_stock_list),
            max_hp_list: duplicate_opt_list(&self.max_hp_list),
            chara_list: duplicate_list(&self.chara_list),
            group_list: duplicate_list(&self.group_list),
            stock_list: duplicate_list(&self.stock_list),
            order_list: duplicate_list(&self.order_list),
            power_list: duplicate_list(&self.power_list),
        }
    }

    /// The key under which the record was stored.
    pub fn get_id(&self) -> (r: Option<String>)
        ensures
            match r {
                Some(s) => self.id() == Some(s@),
                None => self.id() == None::<Seq<char>>,
            },
    {
        match &self.db_collection_id {
            Some(s) => Some(s.clone()),
            None => None,
        }
    }

    pub fn get_saved_time(&self) -> (r: Option<i64>)
        ensures
            r == self.saved_time(),
    {
        self.saved_time
    }

    pub fn get_start_time(&self) -> (r: Option<i64>)
        ensures
            r == self.start_time(),
    {
        self.start_time
    }

    pub fn get_end_time(&self) -> (r: Option<i64>)
        ensures
            r == self.end_time(),
    {
        self.end_time
    }

    pub fn get_player_count(&self) -> (r: i32)
        ensures
            r == self.player_count(),
    {
        self.player_count
    }

    pub fn get_rule(&self) -> (r: BattleRule)
        ensures
            r == self.rule(),
    {
        self.rule_name
    }

    /// The time limit in seconds, 0 while it is not known.
    pub fn get_max_time(&self) -> (r: u64)
        ensures
            r == match self.max_time() {
                Some(t) => t,
                None => 0,
            },
    {
        match self.max_time {
            Some(t) => t,
            None => 0,
        }
    }

    /// The stock limit of a player, -1 while there is none.
    pub fn get_max_stock(&self, player_number: i32) -> (r: i32)
        ensures
            r == match self.max_stocks() {
                Some(s) => value_or_minus_one(s, player_number as int),
                None => -1i32,
            },
    {
        match &self.max_stock_list {
            None => -1,
            Some(list) => {
                if player_number < 0 || list.len() <= player_number as usize {
                    -1
                } else {
                    list[player_number as usize].get()
                }
            },
        }
    }

    /// The hit-point limit of a player, -1 while there is none.
    pub fn get_max_hp(&self, player_number: i32) -> (r: i32)
        ensures
            r == match self.max_hps() {
                Some(s) => value_or_minus_one(s, player_number as int),
                None => -1i32,
            },
    {
        match &self.max_hp_list {
            None => -1,
            Some(list) => {
                if player_number < 0 || list.len() <= player_number as usize {
                    -1
                } else {
                    list[player_number as usize].get()
                }
            },
        }
    }

    /// The character of a player, "unknown" when there is no such player.
    pub fn get_character(&self, player_number: i32) -> (r: String)
        ensures
            r@ == if 0 <= player_number < self.charas().len() {
                self.charas()[player_number as int].value()
            } else {
                unknown_name()
            },
    {
        if player_number < 0 || self.chara_list.len() <= player_number as usize {
            return character_name_unknown();
        }
        self.chara_list[player_number as usize].get()
    }

    /// The group of a player, `Unknown` when there is no such player.
    pub fn get_group(&self, player_number: i32) -> (r: PlayerGroup)
        ensures
            r == if 0 <= player_number < self.groups().len() {
                self.groups()[player_number as int].value()
            } else {
                PlayerGroup::Unknown
            },
    {
        if player_number < 0 || self.group_list.len() <= player_number as usize {
            return PlayerGroup::Unknown;
        }
        self.group_list[player_number as usize].get()
    }

    /// The stock of a player, -1 when there is no such player.
    pub fn get_stock(&self, player_number: i32) -> (r: i32)
        ensures
            r == value_or_minus_one(self.stocks(), player_number as int),
    {
        if player_number < 0 || self.stock_list.len() <= player_number as usize {
            return -1;
        }
        self.stock_list[player_number as usize].get()
    }

    /// The placing of a player, -1 when there is no such player.
    pub fn get_order(&self, player_number: i32) -> (r: i32)
        ensures
            r == value_or_minus_one(self.orders(), player_number as int),
    {
        if player_number < 0 || self.order_list.len() <= player_number as usize {
            return -1;
        }
        self.order_list[player_number as usize].get()
    }

    /// The power of a player, -1 when there is no such player.
    pub fn get_power(&self, player_number: i32) -> (r: i32)
        ensures
            r == value_or_minus_one(self.powers(), player_number as int),
    {
        if player_number < 0 || self.power_list.len() <= player_number as usize {
            return -1;
        }
        self.power_list[player_number as usize].get()
    }

    // ---- setters ----

    pub fn set_id(&mut self, value: Option<String>)
        ensures
            final(self).id() == match value {
                Some(s) => Some(s@),
                None => None::<Seq<char>>,
            },
            final(self).saved_time() == old(self).saved_time(),
            final(self).start_time() == old(self).start_time(),
            final(self).end_time() == old(self).end_time(),
            final(self).player_count() == old(self).player_count(),
            final(self).rule() == old(self).rule(),
            final(self).max_time() == old(self).max_time(),
            lists_same(*old(self), *final(self)),
    {
        self.db_collection_id = value;
    }

    pub fn set_saved_time(&mut self, value: Option<i64>)
        ensures
            final(self).saved_time() == value,
            final(self).id() == old(self).id(),
            final(self).start_time() == old(self).start_time(),
            final(self).end_time() == old(self).end_time(),
            final(self).player_count() == old(self).player_count(),
            final(self).rule() == old(self).rule(),
            final(self).max_time() == old(self).max_time(),
            lists_same(*old(self), *final(self)),
    {
        self.saved_time = value;
    }

    pub fn set_start_time(&mut self, value: Option<i64>)
        ensures
            final(self).start_time() == value,
            final(self).id() == old(self).id(),
            final(self).saved_time() == old(self).saved_time(),
            final(self).end_time() == old(self).end_time(),
            final(self).player_count() == old(self).player_count(),
            final(self).rule() == old(self).rule(),
            final(self).max_time() == old(self).max_time(),
            lists_same(*old(self), *final(self)),
    {
        self.start_time = value;
    }

    pub fn set_end_time(&mut self, value: Option<i64>)
        ensures
            final(self).end_time() == value,
            final(self).id() == old(self).id(),
            final(self).saved_time() == old(self).saved_time(),
            final(self).start_time() == old(self).start_time(),
            final(self).player_count() == old(self).player_count(),
            final(self).rule() == old(self).rule(),
            final(self).max_time() == old(self).max_time(),
            lists_same(*old(self), *final(self)),
    {
        self.end_time = value;
    }

    pub fn set_player_count(&mut self, value: i32)
        ensures
            final(self).player_count() == value,
            final(self).id() == old(self).id(),
            final(self).saved_time() == old(self).saved_time(),
            final(self).start_time() == old(self).start_time(),
            final(self).end_time() == old(self).end_time(),
            final(self).rule() == old(self).rule(),
            final(self).max_time() == old(self).max_time(),
            lists_same(*old(self), *final(self)),
    {
        self.player_count = value;
    }

    pub fn set_rule(&mut self, value: BattleRule)
        ensures
            final(self).rule() == value,
            final(self).id() == old(self).id(),
            final(self).saved_time() == old(self).saved_time(),
            final(self).start_time() == old(self).start_time(),
            final(self).end_time() == old(self).end_time(),
            final(self).player_count() == old(self).player_count(),
            final(self).max_time() == old(self).max_time(),
            lists_same(*old(self), *final(self)),
    {
        self.rule_name = value;
    }

    /// Sets the time limit in seconds.
    pub fn set_max_time(&mut self, value: u64)
        ensures
            final(self).max_time() == Some(value),
            final(self).id() == old(self).id(),
            final(self).saved_time() == old(self).saved_time(),
            final(self).start_time() == old(self).start_time(),
            final(self).end_time() == old(self).end_time(),
            final(self).player_count() == old(self).player_count(),
            final(self).rule() == old(self).rule(),
            lists_same(*old(self), *final(self)),
    {
        self.max_time = Some(value);
    }

    pub fn set_max_stock(&mut self, player_number: i32, value: i32)
        requires
            old(self).wf(),
            old(self).max_stocks() is Some,
            0 <= player_number < old(self).max_stocks().unwrap().len(),
        ensures
            final(self).wf(),
            header_same(*old(self), *final(self)),
            final(self).max_stocks() is Some,
            list_set(old(self).max_stocks().unwrap(), final(self).max_stocks().unwrap(), player_number as int, value),
            final(self).max_hps() == old(self).max_hps(),
            final(self).charas() == old(self).charas(),
            final(self).groups() == old(self).groups(),
            final(self).stocks() == old(self).stocks(),
            final(self).orders() == old(self).orders(),
            final(self).powers() == old(self).powers(),
    {
        let ghost old_list = old(self).max_stocks().unwrap();
        if let Some(list) = &mut self.max_stock_list {
            list[player_number as usize].set(value);
        }
        proof {
            lemma_sound_update(old_list, player_number as int, self.max_stocks().unwrap()[player_number as int]);
        }
    }

    pub fn set_max_hp(&mut self, player_number: i32, value: i32)
        requires
            old(self).wf(),
            old(self).max_hps() is Some,
            0 <= player_number < old(self).max_hps().unwrap().len(),
        ensures
            final(self).wf(),
            header_same(*old(self), *final(self)),
            final(self).max_hps() is Some,
            list_set(old(self).max_hps().unwrap(), final(self).max_hps().unwrap(), player_number as int, value),
            final(self).max_stocks() == old(self).max_stocks(),
            final(self).charas() == old(self).charas(),
            final(self).groups() == old(self).groups(),
            final(self).stocks() == old(self).stocks(),
            final(self).orders() == old(self).orders(),
            final(self).powers() == old(self).powers(),
    {
        let ghost old_list = old(self).max_hps().unwrap();
        if let Some(list) = &mut self.max_hp_list {
            list[player_number as usize].set(value);
        }
        proof {
            lemma_sound_update(old_list, player_number as int, self.max_hps().unwrap()[player_number as int]);
        }
    }

    pub fn set_character(&mut self, player_number: i32, value: String)
        requires
            old(self).wf(),
            0 <= player_number < old(self).slots(),
        ensures
            final(self).wf(),
            header_same(*old(self), *final(self)),
            list_set(old(self).charas(), final(self).charas(), player_number as int, value@),
            final(self).max_stocks() == old(self).max_stocks(),
            final(self).max_hps() == old(self).max_hps(),
            final(self).groups() == old(self).groups(),
            final(self).stocks() == old(self).stocks(),
            final(self).orders() == old(self).orders(),
            final(self).powers() == old(self).powers(),
    {
        let ghost old_list = self.chara_list@;
        self.chara_list[player_number as usize].set(value);
        proof {
            lemma_sound_update(old_list, player_number as int, self.chara_list@[player_number as int]);
        }
    }

    pub fn set_group(&mut self, player_number: i32, value: PlayerGroup)
        requires
            old(self).wf(),
            0 <= player_number < old(self).slots(),
        ensures
            final(self).wf(),
            header_same(*old(self), *final(self)),
            list_set(old(self).groups(), final(self).groups(), player_number as int, value),
            final(self).max_stocks() == old(self).max_stocks(),
            final(self).max_hps() == old(self).max_hps(),
            final(self).charas() == old(self).charas(),
            final(self).stocks() == old(self).stocks(),
            final(self).orders() == old(self).orders(),
            final(self).powers() == old(self).powers(),
    {
        let ghost old_list = self.group_list@;
        self.group_list[player_number as usize].set(value);
        proof {
            lemma_sound_update(old_list, player_number as int, self.group_list@[player_number as int]);
        }
    }

    pub fn set_stock(&mut self, player_number: i32, value: i32)
        requires
            old(self).wf(),
            0 <= player_number < old(self).slots(),
        ensures
            Self::stock_set(*old(self), *final(self), player_number, value),
    {
        let ghost old_list = self.stock_list@;
        self.stock_list[player_number as usize].set(value);
        proof {
            lemma_sound_update(old_list, player_number as int, self.stock_list@[player_number as int]);
        }
    }

    pub fn set_order(&mut self, player_number: i32, value: i32)
        requires
            old(self).wf(),
            0 <= player_number < old(self).slots(),
        ensures
            final(self).wf(),
            header_same(*old(self), *final(self)),
            list_set(old(self).orders(), final(self).orders(), player_number as int, value),
            final(self).max_stocks() == old(self).max_stocks(),
            final(self).max_hps() == old(self).max_hps(),
            final(self).charas() == old(self).charas(),
            final(self).groups() == old(self).groups(),
            final(self).stocks() == old(self).stocks(),
            final(self).powers() == old(self).powers(),
    {
        let ghost old_list = self.order_list@;
        self.order_list[player_number as usize].set(value);
        proof {
            lemma_sound_update(old_list, player_number as int, self.order_list@[player_number as int]);
        }
    }

    pub fn set_power(&mut self, player_number: i32, value: i32)
        requires
            old(self).wf(),
            0 <= player_number < old(self).slots(),
        ensures
            final(self).wf(),
            header_same(*old(self), *final(self)),
            list_set(old(self).powers(), final(self).powers(), player_number as int, value),
            final(self).max_stocks() == old(self).max_stocks(),
            final(self).max_hps() == old(self).max_hps(),
            final(self).charas() == old(self).charas(),
            final(self).groups() == old(self).groups(),
            final(self).stocks() == old(self).stocks(),
            final(self).orders() == old(self).orders(),
    {
        let ghost old_list = self.power_list@;
        self.power_list[player_number as usize].set(value);
        proof {
            lemma_sound_update(old_list, player_number as int, self.power_list@[player_number as int]);
        }
    }

    // ---- states of the battle ----

    /// At time `now` the battle has started and not ended.
    pub open spec fn playing_at(&self, now: i64) -> bool {
        &&& !(self.end_time() is Some && self.end_time().unwrap() <= now)
        &&& self.start_time() is Some
        &&& self.start_time().unwrap() <= now
    }

    /// At time `now` the battle has started and ended.
    pub open spec fn finished_at(&self, now: i64) -> bool {
        &&& self.start_time() is Some
        &&& self.end_time() is Some
        &&& self.end_time().unwrap() <= now
    }

    /// Whether the battle is being played at time `now` (milliseconds).
    pub fn is_playing_battle_at(&self, now: i64) -> (b: bool)
        ensures
            b == self.playing_at(now),
    {
        if let Some(end_time) = self.end_time {
            if end_time <= now {
                return false;
            }
        }
        match self.start_time {
            Some(start_time) => start_time <= now,
            None => false,
        }
    }

    /// Whether the battle is being played now, by the local clock.
    pub fn is_playing_battle(&self) -> (b: bool)
        ensures
            exists|now: i64| b == self.playing_at(now),
    {
        let now = clock::now_millis();
        self.is_playing_battle_at(now)
    }

    /// Whether the battle is over at time `now` (milliseconds).
    pub fn is_finished_battle_at(&self, now: i64) -> (b: bool)
        ensures
            b == self.finished_at(now),
    {
        if self.start_time.is_none() {
            return false;
        }
        match self.end_time {
            Some(end_time) => end_time <= now,
            None => false,
        }
    }

    /// Whether the battle is over now, by the local clock.
    pub fn is_finished_battle(&self) -> (b: bool)
        ensures
            exists|now: i64| b == self.finished_at(now),
    {
        let now = clock::now_millis();
        self.is_finished_battle_at(now)
    }

    // ---- what is decided ----

    pub open spec fn decided_max_stock(&self, p: int) -> bool {
        self.max_stocks() is Some && value_or_minus_one(self.max_stocks().unwrap(), p) != -1
    }

    pub open spec fn decided_max_hp(&self, p: int) -> bool {
        self.max_hps() is Some && value_or_minus_one(self.max_hps().unwrap(), p) != -1
    }

    pub open spec fn decided_character(&self, p: int) -> bool {
        self.charas().len() > 0 && self.charas()[p].decided()
    }

    /// The stock of a player counts as decided once it is down to one, the
    /// least it can be while the player is in the battle.
    pub open spec fn decided_stock(&self, p: int) -> bool {
        self.stocks().len() > 0 && self.stocks()[p].value() == 1
    }

    pub open spec fn decided_order(&self, p: int) -> bool {
        self.orders().len() > 0 && self.orders()[p].decided()
    }

    pub open spec fn decided_power(&self, p: int) -> bool {
        self.powers().len() > 0 && self.powers()[p].decided()
    }

    /// A player index that the per-player checks accept: any index when the
    /// lists are empty, else one of the slots.
    pub open spec fn checkable(&self, p: int) -> bool {
        self.slots() == 0 || 0 <= p < self.slots()
    }

    /// All players can be checked: the player count does not exceed the slots.
    pub open spec fn all_checkable(&self) -> bool {
        self.slots() == 0 || self.player_count() <= self.slots()
    }

    pub fn is_decided_rule(&self) -> (b: bool)
        ensures
            b == (self.rule() != BattleRule::Unknown),
    {
        self.rule_name != BattleRule::Unknown
    }

    pub fn is_decided_max_time(&self) -> (b: bool)
        ensures
            b == self.max_time() is Some,
    {
        self.max_time.is_some()
    }

    pub fn is_decided_max_stock(&self, player_number: i32) -> (b: bool)
        ensures
            b == self.decided_max_stock(player_number as int),
    {
        self.max_stock_list.is_some() && -1 != self.get_max_stock(player_number)
    }

    pub fn is_decided_max_hp(&self, player_number: i32) -> (b: bool)
        ensures
            b == self.decided_max_hp(player_number as int),
    {
        self.max_hp_list.is_some() && -1 != self.get_max_hp(player_number)
    }

    pub fn is_decided_character_name(&self, player_number: i32) -> (b: bool)
        requires
            self.checkable(player_number as int),
        ensures
            b == self.decided_character(player_number as int),
    {
        !self.chara_list.is_empty() && self.chara_list[player_number as usize].is_decided()
    }

    pub fn is_decided_stock(&self, player_number: i32) -> (b: bool)
        requires
            self.wf(),
            self.checkable(player_number as int),
        ensures
            b == self.decided_stock(player_number as int),
    {
        !self.stock_list.is_empty() && 1 == self.stock_list[player_number as usize].get()
    }

    pub fn is_decided_order(&self, player_number: i32) -> (b: bool)
        requires
            self.wf(),
            self.checkable(player_number as int),
        ensures
            b == self.decided_order(player_number as int),
    {
        !self.order_list.is_empty() && self.order_list[player_number as usize].is_decided()
    }

    pub fn is_decided_power(&self, player_number: i32) -> (b: bool)
        requires
            self.wf(),
            self.checkable(player_number as int),
        ensures
            b == self.decided_power(player_number as int),
    {
        !self.power_list.is_empty() && self.power_list[player_number as usize].is_decided()
    }

    pub open spec fn all_decided_max_stock_spec(&self) -> bool {
        forall|p: int| 0 <= p < self.player_count() ==> #[trigger] self.decided_max_stock(p)
    }

    pub open spec fn all_decided_max_hp_spec(&self) -> bool {
        forall|p: int| 0 <= p < self.player_count() ==> #[trigger] self.decided_max_hp(p)
    }

    pub open spec fn all_decided_character_spec(&self) -> bool {
        forall|p: int| 0 <= p < self.player_count() ==> #[trigger] self.decided_character(p)
    }

    pub open spec fn all_decided_stock_spec(&self) -> bool {
        forall|p: int| 0 <= p < self.player_count() ==> #[trigger] self.decided_stock(p)
    }

    pub open spec fn all_decided_order_spec(&self) -> bool {
        forall|p: int| 0 <= p < self.player_count() ==> #[trigger] self.decided_order(p)
    }

    pub open spec fn all_decided_power_spec(&self) -> bool {
        forall|p: int| 0 <= p < self.player_count() ==> #[trigger] self.decided_power(p)
    }

    /// Whether the stock limit of every player is known.
    pub fn all_decided_max_stock(&self) -> (b: bool)
        ensures
            b == self.all_decided_max_stock_spec(),
    {
        let mut p: i32 = 0;
        while p < self.player_count
            invariant
                0 <= p,
                self.player_count >= 0 ==> p <= self.player_count,
                self.player_count < 0 ==> p == 0,
                forall|q: int| 0 <= q < p ==> #[trigger] self.decided_max_stock(q),
            decreases self.player_count - p,
        {
            if !self.is_decided_max_stock(p) {
                return false;
            }
            p = p + 1;
        }
        true
    }

    /// Whether the hit-point limit of every player is known.
    pub fn all_decided_max_hp(&self) -> (b: bool)
        ensures
            b == self.all_decided_max_hp_spec(),
    {
        let mut p: i32 = 0;
        while p < self.player_count
            invariant
                0 <= p,
                self.player_count >= 0 ==> p <= self.player_count,
                self.player_count < 0 ==> p == 0,
                forall|q: int| 0 <= q < p ==> #[trigger] self.decided_max_hp(q),
            decreases self.player_count - p,
        {
            if !self.is_decided_max_hp(p) {
                return false;
            }
            p = p + 1;
        }
        true
    }

    /// Whether the character of every player is decided.
    pub fn all_decided_character_name(&self) -> (b: bool)
        requires
            self.all_checkable(),
        ensures
            b == self.all_decided_character_spec(),
    {
        let mut p: i32 = 0;
        while p < self.player_count
            invariant
                0 <= p,
                self.all_checkable(),
                self.player_count >= 0 ==> p <= self.player_count,
                self.player_count < 0 ==> p == 0,
                forall|q: int| 0 <= q < p ==> #[trigger] self.decided_character(q),
            decreases self.player_count - p,
        {
            if !self.is_decided_character_name(p) {
                return false;
            }
            p = p + 1;
        }
        true
    }

    /// Whether the stock of every player is decided.
    pub fn all_decided_stock(&self) -> (b: bool)
        requires
            self.wf(),
            self.all_checkable(),
        ensures
            b == self.all_decided_stock_spec(),
    {
        let mut p: i32 = 0;
        while p < self.player_count
            invariant
                0 <= p,
                self.wf(),
                self.all_checkable(),
                self.player_count >= 0 ==> p <= self.player_count,
                self.player_count < 0 ==> p == 0,
                forall|q: int| 0 <= q < p ==> #[trigger] self.decided_stock(q),
            decreases self.player_count - p,
        {
            if !self.is_decided_stock(p) {
                return false;
            }
            p = p + 1;
        }
        true
    }

    /// Whether the placing of every player is decided.
    pub fn all_decided_order(&self) -> (b: bool)
        requires
            self.wf(),
            self.all_checkable(),
        ensures
            b == self.all_decided_order_spec(),
    {
        let mut p: i32 = 0;
        while p < self.player_count
            invariant
                0 <= p,
                self.wf(),
                self.all_checkable(),
                self.player_count >= 0 ==> p <= self.player_count,
                self.player_count < 0 ==> p == 0,
                forall|q: int| 0 <= q < p ==> #[trigger] self.decided_order(q),
            decreases self.player_count - p,
        {
            if !self.is_decided_order(p) {
                return false;
            }
            p = p + 1;
        }
        true
    }

    /// Whether the power of every player is decided.
    pub fn all_decided_power(&self) -> (b: bool)
        requires
            self.wf(),
            self.all_checkable(),
        ensures
            b == self.all_decided_power_spec(),
    {
        let mut p: i32 = 0;
        while p < self.player_count
            invariant
                0 <= p,
                self.wf(),
                self.all_checkable(),
                self.player_count >= 0 ==> p <= self.player_count,
                self.player_count < 0 ==> p == 0,
                forall|q: int| 0 <= q < p ==> #[trigger] self.decided_power(q),
            decreases self.player_count - p,
        {
            if !self.is_decided_power(p) {
                return false;
            }
            p = p + 1;
        }
        true
    }

    /// Whether the result (power and placing) of every player is decided.
    pub fn all_decided_result(&self) -> (b: bool)
        requires
            self.wf(),
            self.all_checkable(),
        ensures
            b == (self.all_decided_power_spec() && self.all_decided_order_spec()),
    {
        self.all_decided_power() && self.all_decided_order()
    }

    // ---- the life of a record ----

    /// The record already holds a battle whose characters are not known
    /// yet (the first character is still "unknown").
    pub open spec fn awaiting_battle(&self) -> bool {
        self.charas()[0].value() == unknown_name()
    }

    /// The record is to be stored when it is saved: it has no key yet and
    /// it is a one-on-one battle.
    pub open spec fn store_pending(&self) -> bool {
        self.id() is None && self.player_count() == 2
    }

    /// Whether saving the record now would store it (the caller stores it
    /// and hands the key to `save_battle`).
    pub fn needs_store(&self) -> (b: bool)
        ensures
            b == self.store_pending(),
    {
        self.db_collection_id.is_none() && self.player_count == 2
    }

    /// The record after `initialize_data` cleared it: no battle, eight
    /// empty slots; key, save time and player count are kept.
    pub open spec fn cleared_from(&self, before: SmashbrosData) -> bool {
        &&& self.id() == before.id()
        &&& self.saved_time() == before.saved_time()
        &&& self.player_count() == before.player_count()
        &&& self.start_time() == None::<i64>
        &&& self.end_time() == None::<i64>
        &&& self.rule() == BattleRule::Unknown
        &&& self.max_time() == None::<u64>
        &&& self.battle_lists_fresh(8, Seq::<char>::empty(), 5)
        &&& self.max_stocks() matches Some(s) && all_fresh(s, 8, -1i32, 5)
        &&& self.max_hps() matches Some(s) && all_fresh(s, 8, -1i32, 5)
    }

    /// Clears the battle unless the record already awaits one.
    /// Returns whether it cleared.
    pub(crate) fn initialize_data(&mut self) -> (r: bool)
        requires
            old(self).slots() > 0,
        ensures
            r == !old(self).awaiting_battle(),
            r ==> final(self).cleared_from(*old(self)),
            r ==> final(self).wf(),
            !r ==> *final(self) == *old(self),
    {
        let unknown = character_name_unknown();
        if self.chara_list[0].get() == unknown {
            return false;
        }
        self.start_time = None;
        self.end_time = None;
        self.rule_name = BattleRule::Unknown;
        self.max_time = None;
        let empty = String::new();
        self.chara_list = fresh_name_list(8, &empty);
        self.group_list = fresh_group_list(8);
        self.stock_list = fresh_i32_list(8, 5);
        self.order_list = fresh_i32_list(8, 5);
        self.power_list = fresh_i32_list(8, 5);
        self.max_stock_list = Some(fresh_i32_list(8, 5));
        self.max_hp_list = Some(fresh_i32_list(8, 5));
        proof {
            lemma_fresh_sound(self.charas(), 8, Seq::<char>::empty(), 5);
            lemma_fresh_sound(self.groups(), 8, PlayerGroup::Unknown, 5);
            lemma_fresh_sound(self.stocks(), 8, -1i32, 5);
            lemma_fresh_sound(self.orders(), 8, -1i32, 5);
            lemma_fresh_sound(self.powers(), 8, -1i32, 5);
            lemma_fresh_sound(self.max_stocks().unwrap(), 8, -1i32, 5);
            lemma_fresh_sound(self.max_hps().unwrap(), 8, -1i32, 5);
        }
        true
    }

    /// Marks the start of the battle at `now` (milliseconds).
    pub fn start_battle_at(&mut self, now: i64)
        ensures
            final(self).start_time() == Some(now),
            final(self).id() == old(self).id(),
            final(self).saved_time() == old(self).saved_time(),
            final(self).end_time() == old(self).end_time(),
            final(self).player_count() == old(self).player_count(),
            final(self).rule() == old(self).rule(),
            final(self).max_time() == old(self).max_time(),
            lists_same(*old(self), *final(self)),
    {
        self.start_time = Some(now);
    }

    /// Marks the start of the battle by the local clock.
    pub fn start_battle(&mut self)
        ensures
            final(self).start_time() is Some,
            final(self).id() == old(self).id(),
            final(self).saved_time() == old(self).saved_time(),
            final(self).end_time() == old(self).end_time(),
            final(self).player_count() == old(self).player_count(),
            final(self).rule() == old(self).rule(),
            final(self).max_time() == old(self).max_time(),
            lists_same(*old(self), *final(self)),
    {
        let now = clock::now_millis();
        self.start_battle_at(now);
    }

    /// Marks the end of the battle at `now` (milliseconds).
    pub fn finish_battle_at(&mut self, now: i64)
        ensures
            final(self).end_time() == Some(now),
            final(self).id() == old(self).id(),
            final(self).saved_time() == old(self).saved_time(),
            final(self).start_time() == old(self).start_time(),
            final(self).player_count() == old(self).player_count(),
            final(self).rule() == old(self).rule(),
            final(self).max_time() == old(self).max_time(),
            lists_same(*old(self), *final(self)),
    {
        self.end_time = Some(now);
    }

    /// Marks the end of the battle by the local clock.
    pub fn finish_battle(&mut self)
        ensures
            final(self).end_time() is Some,
            final(self).id() == old(self).id(),
            final(self).saved_time() == old(self).saved_time(),
            final(self).start_time() == old(self).start_time(),
            final(self).player_count() == old(self).player_count(),
            final(self).rule() == old(self).rule(),
            final(self).max_time() == old(self).max_time(),
            lists_same(*old(self), *final(self)),
    {
        let now = clock::now_millis();
        self.finish_battle_at(now);
    }

    /// The record after `save_battle_at(now, stored_id)`.
    pub open spec fn saved_from(&self, before: SmashbrosData, now: i64, stored_id: Option<Seq<char>>) -> bool {
        if before.id() is Some {
            *self == before
        } else {
            &&& self.id() == (if before.player_count() == 2 {
                stored_id
            } else {
                None
            })
            &&& self.saved_time() == Some(now)
            &&& self.start_time() == before.start_time()
            &&& self.end_time() == before.end_time()
            &&& self.player_count() == before.player_count()
            &&& self.rule() == before.rule()
            &&& self.max_time() == before.max_time()
            &&& lists_same(before, *self)
        }
    }

    /// Saves the record at `now`: unless it already has a key, it takes the
    /// key `stored_id` under which the caller stored it (one-on-one battles
    /// only) and the save time.
    pub fn save_battle_at(&mut self, now: i64, stored_id: Option<String>)
        ensures
            final(self).saved_from(*old(self), now, opt_view(stored_id)),
    {
        if self.db_collection_id.is_some() {
            return;
        }
        self.db_collection_id = if self.player_count == 2 {
            stored_id
        } else {
            None
        };
        self.saved_time = Some(now);
    }

    /// One way through `finalize_battle_at(now, stored_id)`: `mid` is the
    /// record after the save step, `after` after the clearing step.
    pub open spec fn finalize_steps(before: SmashbrosData, mid: SmashbrosData, after: SmashbrosData, now: i64, stored_id: Option<Seq<char>>) -> bool {
        &&& (if before.finished_at(now) {
            mid.saved_from(before, now, stored_id)
        } else {
            mid == before
        })
        &&& (if before.awaiting_battle() {
            after == mid
        } else {
            after.cleared_from(mid)
        })
    }

    /// The record after `finalize_battle_at(now, stored_id)`: saved when the
    /// battle is over, then cleared unless it awaits a battle.
    pub open spec fn finalized_from(&self, before: SmashbrosData, now: i64, stored_id: Option<Seq<char>>) -> bool {
        exists|mid: SmashbrosData| #[trigger] Self::finalize_steps(before, mid, *self, now, stored_id)
    }

    /// Ends the life of the battle in the record at `now`: saves it when it
    /// is over, then clears it unless it awaits a battle. Returns whether it
    /// cleared.
    pub fn finalize_battle_at(&mut self, now: i64, stored_id: Option<String>) -> (r: bool)
        requires
            old(self).slots() > 0,
        ensures
            r == !old(self).awaiting_battle(),
            final(self).finalized_from(*old(self), now, opt_view(stored_id)),
            old(self).wf() ==> final(self).wf(),
    {
        let ghost sid = opt_view(stored_id);
        if self.is_finished_battle_at(now) {
            self.save_battle_at(now, stored_id);
        }
        let ghost mid = *self;
        let r = self.initialize_data();
        proof {
            assert(mid.charas() == old(self).charas());
            assert(Self::finalize_steps(*old(self), mid, *self, now, sid));
        }
        r
    }

    /// Ends the life of the battle by the local clock.
    pub fn finalize_battle(&mut self, stored_id: Option<String>) -> (r: bool)
        requires
            old(self).slots() > 0,
        ensures
            r == !old(self).awaiting_battle(),
            exists|now: i64|
                final(self).finalized_from(*old(self), now, opt_view(stored_id)),
            old(self).wf() ==> final(self).wf(),
    {
        let now = clock::now_millis();
        self.finalize_battle_at(now, stored_id)
    }

    /// Saves the record by the local clock.
    pub fn save_battle(&mut self, stored_id: Option<String>)
        ensures
            exists|now: i64|
                final(self).saved_from(*old(self), now, opt_view(stored_id)),
    {
        let now = clock::now_millis();
        self.save_battle_at(now, stored_id);
    }

    /// The record set up for a battle of `n` players from `mid`: no key,
    /// every per-player value unknown (the stock decided after two
    /// observations), and in a one-on-one battle the groups fixed to red
    /// and blue.
    pub open spec fn battle_set_from(&self, mid: SmashbrosData, n: int) -> bool {
        &&& self.id() == None::<Seq<char>>
        &&& self.saved_time() == mid.saved_time()
        &&& self.start_time() == mid.start_time()
        &&& self.end_time() == mid.end_time()
        &&& self.rule() == mid.rule()
        &&& self.max_time() == mid.max_time()
        &&& self.player_count() == n
        &&& all_fresh(self.charas(), n_slots(n), unknown_name(), 5)
        &&& (if n == 2 {
            &&& self.groups().len() == 2
            &&& fixed_group(self.groups()[0], PlayerGroup::Red)
            &&& fixed_group(self.groups()[1], PlayerGroup::Blue)
        } else {
            all_fresh(self.groups(), n_slots(n), PlayerGroup::Unknown, 5)
        })
        &&& all_fresh(self.stocks(), n_slots(n), -1i32, 2)
        &&& all_fresh(self.orders(), n_slots(n), -1i32, 5)
        &&& all_fresh(self.powers(), n_slots(n), -1i32, 5)
        &&& self.max_stocks() matches Some(s) && all_fresh(s, n_slots(n), -1i32, 5)
        &&& self.max_hps() matches Some(s) && all_fresh(s, n_slots(n), -1i32, 5)
    }

    /// One way through `initialize_battle_at`: `mid` is the record after
    /// finalizing the previous battle.
    pub open spec fn initialize_steps(before: SmashbrosData, mid: SmashbrosData, after: SmashbrosData, n: int, now: i64, stored_id: Option<Seq<char>>) -> bool {
        &&& mid.finalized_from(before, now, stored_id)
        &&& (if before.awaiting_battle() {
            after == mid
        } else {
            after.battle_set_from(mid, n)
        })
    }

    /// Prepares the record for a battle of `player_count` players at `now`:
    /// the previous battle is finalized first (saved under `stored_id` when
    /// it is over), and nothing more happens when the record already awaits
    /// a battle.
    pub fn initialize_battle_at(&mut self, player_count: i32, now: i64, stored_id: Option<String>)
        requires
            old(self).slots() > 0,
        ensures
            exists|mid: SmashbrosData| #[trigger]
                Self::initialize_steps(*old(self), mid, *final(self), player_count as int, now, opt_view(stored_id)),
            old(self).wf() || !old(self).awaiting_battle() ==> final(self).wf(),
    {
        let ghost sid = opt_view(stored_id);
        if !self.finalize_battle_at(now, stored_id) {
            proof {
                assert(Self::initialize_steps(*old(self), *self, *self, player_count as int, now, sid));
            }
            return;
        }
        let ghost mid = *self;
        self.db_collection_id = None;
        self.player_count = player_count;
        let unknown = character_name_unknown();
        self.max_stock_list = Some(fresh_i32_list(player_count, 5));
        self.max_hp_list = Some(fresh_i32_list(player_count, 5));
        self.chara_list = fresh_name_list(player_count, &unknown);
        self.group_list = fresh_group_list(player_count);
        self.stock_list = fresh_i32_list(player_count, 2);
        self.order_list = fresh_i32_list(player_count, 5);
        self.power_list = fresh_i32_list(player_count, 5);
        proof {
            lemma_fresh_sound(self.charas(), n_slots(player_count as int), unknown_name(), 5);
            lemma_fresh_sound(self.groups(), n_slots(player_count as int), PlayerGroup::Unknown, 5);
            lemma_fresh_sound(self.stocks(), n_slots(player_count as int), -1i32, 2);
            lemma_fresh_sound(self.orders(), n_slots(player_count as int), -1i32, 5);
            lemma_fresh_sound(self.powers(), n_slots(player_count as int), -1i32, 5);
            lemma_fresh_sound(self.max_stocks().unwrap(), n_slots(player_count as int), -1i32, 5);
            lemma_fresh_sound(self.max_hps().unwrap(), n_slots(player_count as int), -1i32, 5);
        }
        if player_count == 2 {
            proof {
                assert(fresh(self.groups()[0], PlayerGroup::Unknown, 5));
                assert(fresh(self.groups()[1], PlayerGroup::Unknown, 5));
            }
            self.group_list[0].set(PlayerGroup::Red);
            self.group_list[1].set(PlayerGroup::Blue);
            proof {
                let g = self.groups();
                assert(fixed_group(g[0], PlayerGroup::Red));
                assert(fixed_group(g[1], PlayerGroup::Blue));
                assert forall|i: int| #![trigger g[i]] 0 <= i < g.len() implies g[i].wf() && g[i].settled() by {
                }
            }
        }
        proof {
            assert(self.battle_set_from(mid, player_count as int));
            assert(Self::initialize_steps(*old(self), mid, *self, player_count as int, now, sid));
        }
    }

    /// Prepares the record for a battle of `player_count` players, by the
    /// local clock.
    pub fn initialize_battle(&mut self, player_count: i32, stored_id: Option<String>)
        requires
            old(self).slots() > 0,
        ensures
            exists|now: i64, mid: SmashbrosData| #[trigger]
                Self::initialize_steps(*old(self), mid, *final(self), player_count as int, now, opt_view(stored_id)),
            old(self).wf() || !old(self).awaiting_battle() ==> final(self).wf(),
    {
        let now = clock::now_millis();
        self.initialize_battle_at(player_count, now, stored_id);
    }

    // ---- effects of the guesses ----

    /// Only the per-player list named `which` may differ between the records.
    pub open spec fn others_same(before: SmashbrosData, after: SmashbrosData, which: int) -> bool {
        &&& header_same(before, after)
        &&& (which != 0 ==> after.max_stocks() == before.max_stocks())
        &&& (which != 1 ==> after.max_hps() == before.max_hps())
        &&& (which != 2 ==> after.charas() == before.charas())
        &&& (which != 3 ==> after.groups() == before.groups())
        &&& (which != 4 ==> after.stocks() == before.stocks())
        &&& (which != 5 ==> after.orders() == before.orders())
        &&& (which != 6 ==> after.powers() == before.powers())
    }

    /// The effect of `guess_max_time(secs)`.
    pub open spec fn time_guessed(before: SmashbrosData, after: SmashbrosData, secs: u64) -> bool {
        &&& after.max_time() == (if before.max_time() is Some || rule_rejects_time(before.rule(), secs as int) {
            before.max_time()
        } else {
            Some(secs)
        })
        &&& after.id() == before.id()
        &&& after.saved_time() == before.saved_time()
        &&& after.start_time() == before.start_time()
        &&& after.end_time() == before.end_time()
        &&& after.player_count() == before.player_count()
        &&& after.rule() == before.rule()
        &&& lists_same(before, after)
    }

    /// The effect of `guess_max_stock(p, stock)`.
    pub open spec fn max_stock_guessed(before: SmashbrosData, after: SmashbrosData, p: i32, stock: i32) -> bool {
        &&& after.wf()
        &&& if before.decided_max_stock(p as int) || rule_rejects_stock(before.rule(), stock as int) {
            after == before
        } else {
            &&& Self::others_same(before, after, 0)
            &&& after.max_stocks() is Some
            &&& list_guess(before.max_stocks().unwrap(), after.max_stocks().unwrap(), p as int, stock)
        }
    }

    /// The effect of `guess_max_hp(p, hp)`.
    pub open spec fn max_hp_guessed(before: SmashbrosData, after: SmashbrosData, p: i32, hp: i32) -> bool {
        &&& after.wf()
        &&& if before.decided_max_hp(p as int) {
            after == before
        } else {
            &&& Self::others_same(before, after, 1)
            &&& after.max_hps() is Some
            &&& list_guess(before.max_hps().unwrap(), after.max_hps().unwrap(), p as int, hp)
        }
    }

    /// The effect of `guess_power(p, power)`.
    pub open spec fn power_guessed(before: SmashbrosData, after: SmashbrosData, p: i32, power: i32) -> bool {
        &&& after.wf()
        &&& if before.decided_power(p as int) || power < 10 {
            after == before
        } else {
            &&& Self::others_same(before, after, 6)
            &&& list_guess(before.powers(), after.powers(), p as int, power)
        }
    }

    /// What `guess_stock` does to the stock guesser of one player under `rule`.
    pub open spec fn stock_entry_guessed(rule: BattleRule, g: ValueGuesser<i32>, after: ValueGuesser<i32>, stock: i32) -> bool {
        if (g.decided() && g.value() == stock) || rule_rejects_stock(rule, stock as int) {
            after == g
        } else {
            exists|g1: ValueGuesser<i32>| #[trigger] Self::stock_steps(g, g1, after, stock)
        }
    }

    /// The effect of `guess_stock(p, stock)`.
    pub open spec fn stock_guessed(before: SmashbrosData, after: SmashbrosData, p: i32, stock: i32) -> bool {
        &&& after.wf()
        &&& Self::others_same(before, after, 4)
        &&& after.stocks() == before.stocks().update(p as int, after.stocks()[p as int])
        &&& Self::stock_entry_guessed(before.rule(), before.stocks()[p as int], after.stocks()[p as int], stock)
    }

    /// The effect of `guess_order(p, order)`.
    pub open spec fn order_guessed(before: SmashbrosData, after: SmashbrosData, p: i32, order: i32) -> bool {
        &&& after.wf()
        &&& header_same(before, after)
        &&& after.max_stocks() == before.max_stocks()
        &&& after.max_hps() == before.max_hps()
        &&& after.charas() == before.charas()
        &&& after.groups() == before.groups()
        &&& after.powers() == before.powers()
        &&& if before.decided_order(p as int) {
            after == before
        } else {
            exists|mid: Seq<ValueGuesser<i32>>| #[trigger] Self::order_steps(before, mid, after, p as int, order)
        }
    }

    /// The effect of `set_stock(p, value)`.
    pub open spec fn stock_set(before: SmashbrosData, after: SmashbrosData, p: i32, value: i32) -> bool {
        &&& after.wf()
        &&& Self::others_same(before, after, 4)
        &&& list_set(before.stocks(), after.stocks(), p as int, value)
    }

    /// The effect of `guess_character_name(p, name, list, best_match)`.
    pub open spec fn character_guessed(
        before: SmashbrosData,
        after: SmashbrosData,
        p: i32,
        name: Seq<char>,
        list: Seq<String>,
        best_match: Option<Seq<char>>,
    ) -> bool {
        &&& after.wf()
        &&& Self::others_same(before, after, 2)
        &&& if before.decided_character(p as int) {
            after.charas() == before.charas()
        } else if names_contain(list, name) {
            list_set(before.charas(), after.charas(), p as int, name)
        } else if best_match is Some && best_match.unwrap() != unknown_name() {
            list_guess(before.charas(), after.charas(), p as int, best_match.unwrap())
        } else {
            after.charas() == before.charas()
        }
    }

    // ---- guessing from observations ----

    /// Takes `secs` as the time limit unless it is known already or the
    /// rule rules it out.
    pub fn guess_max_time(&mut self, secs: u64)
        ensures
            Self::time_guessed(*old(self), *final(self), secs),
    {
        if self.is_decided_max_time() {
            return;
        }
        match self.rule_name {
            BattleRule::Time => {
                if secs < 2 * 60 || 3 * 60 < secs {
                    return;
                }
            },
            BattleRule::Stock | BattleRule::Stamina => {
                if secs < 3 * 60 || 7 * 60 < secs {
                    return;
                }
            },
            _ => {},
        }
        self.set_max_time(secs);
    }

    /// Counts `stock` as an observation of the stock limit of a player,
    /// unless that limit is known already or the rule rules `stock` out.
    pub fn guess_max_stock(&mut self, player_number: i32, stock: i32)
        requires
            old(self).wf(),
            rule_rejects_stock(old(self).rule(), stock as int) || (old(self).max_stocks() is Some && 0
                <= player_number < old(self).max_stocks().unwrap().len()),
        ensures
            Self::max_stock_guessed(*old(self), *final(self), player_number, stock),
    {
        if self.is_decided_max_stock(player_number) {
            return;
        }
        match self.rule_name {
            BattleRule::Stock | BattleRule::Stamina => {
                if stock < 1 || 3 < stock {
                    return;
                }
            },
            _ => {},
        }
        let ghost old_list = old(self).max_stocks().unwrap();
        proof {
            assert(old_list[player_number as int].wf() && old_list[player_number as int].settled());
        }
        if let Some(list) = &mut self.max_stock_list {
            list[player_number as usize].guess(&stock);
        }
        proof {
            lemma_sound_update(old_list, player_number as int, self.max_stocks().unwrap()[player_number as int]);
        }
    }

    /// Counts `hp` as an observation of the hit-point limit of a player,
    /// unless the hit-point limit of that player is known already.
    pub fn guess_max_hp(&mut self, player_number: i32, hp: i32)
        requires
            old(self).wf(),
            old(self).decided_max_hp(player_number as int) || (old(self).max_hps() is Some && 0
                <= player_number < old(self).max_hps().unwrap().len()),
        ensures
            Self::max_hp_guessed(*old(self), *final(self), player_number, hp),
    {
        if self.is_decided_max_hp(player_number) {
            return;
        }
        let ghost old_list = old(self).max_hps().unwrap();
        proof {
            assert(old_list[player_number as int].wf() && old_list[player_number as int].settled());
        }
        if let Some(list) = &mut self.max_hp_list {
            list[player_number as usize].guess(&hp);
        }
        proof {
            lemma_sound_update(old_list, player_number as int, self.max_hps().unwrap()[player_number as int]);
        }
    }

    /// Records a character name read for a player, unless the character is
    /// decided already: a name of `character_list` is taken as decided;
    /// otherwise `best_match`, the name of the list that the caller found
    /// most similar to the reading (`None` when none is similar at all),
    /// is counted as an observation unless it is "unknown".
    pub fn guess_character_name(
        &mut self,
        player_number: i32,
        maybe_character_name: String,
        character_list: &Vec<String>,
        best_match: Option<String>,
    )
        requires
            old(self).wf(),
            0 <= player_number < old(self).slots(),
        ensures
            Self::character_guessed(*old(self), *final(self), player_number, maybe_character_name@, character_list@, opt_view(best_match)),
    {
        if self.is_decided_character_name(player_number) {
            return;
        }
        if list_contains(character_list, &maybe_character_name) {
            self.set_character(player_number, maybe_character_name);
            return;
        }
        if let Some(name) = best_match {
            let unknown = character_name_unknown();
            if name != unknown {
                let ghost old_list = self.chara_list@;
                proof {
                    assert(old_list[player_number as int].wf() && old_list[player_number as int].settled());
                }
                self.chara_list[player_number as usize].guess(&name);
                proof {
                    lemma_sound_update(old_list, player_number as int, self.chara_list@[player_number as int]);
                }
            }
        }
    }

    /// Counts `power` as an observation of the power of a player, unless
    /// it is decided already or has one digit or none (a misreading).
    pub fn guess_power(&mut self, player_number: i32, power: i32)
        requires
            old(self).wf(),
            0 <= player_number < old(self).slots() || (old(self).slots() == 0 && power < 10),
        ensures
            Self::power_guessed(*old(self), *final(self), player_number, power),
    {
        if power < 10 {
            return;
        }
        if self.is_decided_power(player_number) {
            return;
        }
        let ghost old_list = self.power_list@;
        proof {
            assert(old_list[player_number as int].wf() && old_list[player_number as int].settled());
        }
        self.power_list[player_number as usize].guess(&power);
        proof {
            lemma_sound_update(old_list, player_number as int, self.power_list@[player_number as int]);
        }
    }

    /// Counts `stock` as an observation of the stock of a player, unless it
    /// is already decided at that value or the rule rules it out; once the
    /// count decides, the observed value is fixed (a stock only goes down,
    /// so a newer decided reading replaces an older one).
    pub fn guess_stock(&mut self, player_number: i32, stock: i32)
        requires
            old(self).wf(),
            0 <= player_number < old(self).slots(),
        ensures
            Self::stock_guessed(*old(self), *final(self), player_number, stock),
    {
        proof {
            assert(old(self).stocks().update(player_number as int, old(self).stocks()[player_number as int])
                =~= old(self).stocks());
        }
        let idx = player_number as usize;
        if self.stock_list[idx].is_decided() && self.stock_list[idx].get() == stock {
            return;
        }
        match self.rule_name {
            BattleRule::Stock | BattleRule::Stamina => {
                if stock < 1 || 3 < stock {
                    return;
                }
            },
            _ => {},
        }
        let ghost old_list = self.stock_list@;
        proof {
            assert(old_list[player_number as int].wf() && old_list[player_number as int].settled());
        }
        self.stock_list[idx].guess(&stock);
        let ghost g1 = self.stock_list@[player_number as int];
        if self.stock_list[idx].is_decided() {
            self.stock_list[idx].set(stock);
        }
        proof {
            assert(Self::stock_steps(old_list[player_number as int], g1, self.stocks()[player_number as int], stock));
            lemma_sound_update(old_list, player_number as int, self.stock_list@[player_number as int]);
            assert(Self::others_same(*old(self), *self, 4));
            assert(self.stocks() == old(self).stocks().update(player_number as int, self.stocks()[player_number as int]));
        }
    }

    /// One way through the stock guess: `mid` after counting, `after` after
    /// fixing a decided value.
    pub open spec fn stock_steps(before: ValueGuesser<i32>, mid: ValueGuesser<i32>, after: ValueGuesser<i32>, v: i32) -> bool {
        &&& guess_effect(before, mid, v)
        &&& if mid.decided() {
            set_effect(mid, after, v)
        } else {
            after == mid
        }
    }

    /// One way through `guess_order(p, v)`: `mid` is the placing list after
    /// counting the observation.
    pub open spec fn order_steps(before: SmashbrosData, mid: Seq<ValueGuesser<i32>>, after: SmashbrosData, p: int, v: i32) -> bool {
        &&& list_guess(before.orders(), mid, p, v)
        &&& (if mid[p].decided() && before.player_count() == 2 {
            list_set(mid, after.orders(), 1 - p, (3 - v) as i32)
        } else {
            after.orders() == mid
        })
        &&& (if before.player_count() == 2 && orders_all_decided(after.orders(), 2) {
            let vals = guess_values(after.orders());
            list_set(before.stocks(), after.stocks(), last_index_of(vals, seq_max(vals)), 0)
        } else {
            after.stocks() == before.stocks()
        })
    }

    /// Counts `order` as an observation of the placing of a player, unless
    /// it is decided already. In a one-on-one battle a decided placing also
    /// fixes the other player's placing, and once both are decided the
    /// stock of the last-placed player is set to 0.
    pub fn guess_order(&mut self, player_number: i32, order: i32)
        requires
            old(self).wf(),
            0 <= player_number < old(self).slots(),
            old(self).all_checkable(),
            old(self).player_count() == 2 && !old(self).decided_order(player_number as int)
                && old(self).orders()[player_number as int].count_of(order) + 1 >= old(
                self,
            ).orders()[player_number as int].border() ==> player_number < 2 && order > i32::MIN + 3,
        ensures
            Self::order_guessed(*old(self), *final(self), player_number, order),
    {
        if self.is_decided_order(player_number) {
            return;
        }
        let idx = player_number as usize;
        let ghost old_list = self.order_list@;
        proof {
            assert(old_list[player_number as int].wf() && old_list[player_number as int].settled());
        }
        self.order_list[idx].guess(&order);
        proof {
            lemma_sound_update(old_list, player_number as int, self.order_list@[player_number as int]);
        }
        let ghost mid = self.order_list@;
        if self.order_list[idx].is_decided() {
            if self.player_count == 2 {
                let other_player_number = self.player_count - 1 - player_number;
                let other_order = self.player_count - (order - 1);
                proof {
                    assert(mid[other_player_number as int].wf() && mid[other_player_number as int].settled());
                }
                self.order_list[other_player_number as usize].set(other_order);
                proof {
                    lemma_sound_update(mid, other_player_number as int, self.order_list@[other_player_number as int]);
                }
            }
        }
        let ghost orders2 = self.order_list@;
        let ghost pre = *self;
        if self.player_count == 2 && self.all_decided_order() {
            let n = self.order_list.len();
            let ghost vals = guess_values(orders2);
            let mut max_order = self.order_list[0].get();
            let mut i: usize = 1;
            while i < n
                invariant
                    n == self.order_list@.len(),
                    self.order_list@ == orders2,
                    vals == guess_values(orders2),
                    1 <= i <= n,
                    max_order == seq_max(vals.take(i as int)),
                decreases n - i,
            {
                proof {
                    lemma_seq_max_step(vals, i as int);
                }
                let v = self.order_list[i].get();
                if max_order < v {
                    max_order = v;
                }
                i = i + 1;
            }
            proof {
                assert(vals.take(n as int) =~= vals);
                lemma_seq_max_in(vals);
            }
            let mut last: usize = 0;
            let mut found: bool = false;
            let mut j: usize = 0;
            while j < n
                invariant
                    n == self.order_list@.len(),
                    self.order_list@ == orders2,
                    vals == guess_values(orders2),
                    j <= n,
                    found ==> last < j && last_index_of(vals.take(j as int), max_order as int) == last,
                    !found ==> last_index_of(vals.take(j as int), max_order as int) == -1,
                decreases n - j,
            {
                proof {
                    lemma_last_index_step(vals, max_order as int, j as int);
                }
                if self.order_list[j].get() == max_order {
                    last = j;
                    found = true;
                }
                j = j + 1;
            }
            proof {
                assert(vals.take(n as int) =~= vals);
                let w = choose|w: int| 0 <= w < vals.len() && vals[w] == seq_max(vals);
                lemma_last_index_of(vals, max_order as int, w);
                let ghost old_stocks = self.stock_list@;
                assert(old_stocks[last as int].wf() && old_stocks[last as int].settled());
            }
            let ghost old_stocks = self.stock_list@;
            self.stock_list[last].set(0);
            proof {
                lemma_sound_update(old_stocks, last as int, self.stock_list@[last as int]);
                assert(last as int == last_index_of(vals, seq_max(vals)));
                assert(orders_all_decided(orders2, 2)) by {
                    assert forall|q: int| 0 <= q < 2 implies orders2.len() > 0 && #[trigger] orders2[q].decided() by {
                        assert(pre.decided_order(q));
                    }
                }
                assert(list_set(old(self).stocks(), self.stocks(), last_index_of(vals, seq_max(vals)), 0));
            }
        } else {
            proof {
                if self.player_count == 2 {
                    assert(!self.all_decided_order_spec());
                    let q = choose|q: int| 0 <= q < 2 && !#[trigger] self.decided_order(q);
                    assert(!orders_all_decided(orders2, 2));
                }
            }
        }
        proof {
            assert(list_guess(old(self).orders(), mid, player_number as int, order));
            assert(if mid[player_number as int].decided() && old(self).player_count() == 2 {
                list_set(mid, orders2, 1 - player_number, (3 - order) as i32)
            } else {
                orders2 == mid
            });
            assert(self.orders() == orders2);
            assert(Self::order_steps(*old(self), mid, *self, player_number as int, order));
        }
    }

    /// The stock limit of player `p`, -1 when unknown.
    pub open spec fn max_stock_of(&self, p: int) -> i32 {
        match self.max_stocks() {
            Some(s) => value_or_minus_one(s, p),
            None => -1i32,
        }
    }

    /// The values the record is stored with: its times, player count, rule
    /// by name, time limit as minutes and seconds, and every list's guesses
    /// (a single -1 for a missing limit list, groups by name).
    pub fn stored_values(&self) -> (r: crate::stored::StoredValues)
        ensures
            crate::stored::stores(*self, r),
    {
        let secs = self.get_max_time();
        let t = #[verifier::truncate] (secs as i32);
        let mut max_time: Vec<i32> = Vec::new();
        max_time.push(t / 60);
        max_time.push(t % 60);
        proof {
            assert(crate::stored::time_or_zero(self.max_time()) == secs);
            if secs <= i32::MAX {
                assert(t == secs);
                assert(max_time@ =~= seq![(secs / 60) as i32, (secs % 60) as i32]);
            }
        }
        let max_stock_list = match &self.max_stock_list {
            Some(list) => crate::stored::values_of(list),
            None => {
                let mut v: Vec<i32> = Vec::new();
                v.push(-1);
                v
            },
        };
        let max_hp_list = match &self.max_hp_list {
            Some(list) => crate::stored::values_of(list),
            None => {
                let mut v: Vec<i32> = Vec::new();
                v.push(-1);
                v
            },
        };
        let mut chara_list: Vec<String> = Vec::new();
        let mut i: usize = 0;
        while i < self.chara_list.len()
            invariant
                i <= self.chara_list@.len(),
                chara_list@.len() == i,
                forall|k: int| 0 <= k < i ==> (#[trigger] chara_list@[k])@ == self.chara_list@[k].value(),
            decreases self.chara_list@.len() - i,
        {
            chara_list.push(self.chara_list[i].get());
            i = i + 1;
        }
        proof {
            assert(chara_list@.map_values(|s: String| s@) =~= self.charas().map_values(
                |g: ValueGuesser<String>| g.value(),
            ));
        }
        let mut group_list: Vec<String> = Vec::new();
        let mut j: usize = 0;
        while j < self.group_list.len()
            invariant
                j <= self.group_list@.len(),
                group_list@.len() == j,
                forall|k: int|
                    0 <= k < j ==> (#[trigger] group_list@[k])@ == crate::stored::group_name_spec(
                        self.group_list@[k].value(),
                    ),
            decreases self.group_list@.len() - j,
        {
            group_list.push(crate::stored::group_name(self.group_list[j].get()));
            j = j + 1;
        }
        proof {
            assert(group_list@.map_values(|s: String| s@) =~= self.groups().map_values(
                |g: ValueGuesser<PlayerGroup>| crate::stored::group_name_spec(g.value()),
            ));
        }
        crate::stored::StoredValues {
            start_time: self.start_time,
            end_time: self.end_time,
            player_count: self.player_count,
            rule_name: crate::stored::rule_name(self.rule_name),
            max_time,
            max_stock_list,
            max_hp_list,
            chara_list,
            group_list,
            stock_list: crate::stored::values_of(&self.stock_list),
            order_list: crate::stored::values_of(&self.order_list),
            power_list: crate::stored::values_of(&self.power_list),
        }
    }

    /// The number of stock-limit slots, if there are stock limits.
    pub fn max_stock_slot_count(&self) -> (r: Option<usize>)
        ensures
            (r is Some) == (self.max_stocks() is Some),
            r is Some ==> r.unwrap() == self.max_stocks().unwrap().len(),
    {
        match &self.max_stock_list {
            Some(list) => Some(list.len()),
            None => None,
        }
    }

    /// The number of hit-point-limit slots, if there are hit-point limits.
    pub fn max_hp_slot_count(&self) -> (r: Option<usize>)
        ensures
            (r is Some) == (self.max_hps() is Some),
            r is Some ==> r.unwrap() == self.max_hps().unwrap().len(),
    {
        match &self.max_hp_list {
            Some(list) => Some(list.len()),
            None => None,
        }
    }

    /// Whether the stock limits exist for the first `n` players.
    pub fn has_max_stock_slots(&self, n: i32) -> (b: bool)
        ensures
            b == (self.max_stocks() is Some && n <= self.max_stocks().unwrap().len()),
    {
        match &self.max_stock_list {
            Some(list) => n < 0 || (n as usize) <= list.len(),
            None => false,
        }
    }

    /// Whether the hit-point limits exist for the first `n` players.
    pub fn has_max_hp_slots(&self, n: i32) -> (b: bool)
        ensures
            b == (self.max_hps() is Some && n <= self.max_hps().unwrap().len()),
    {
        match &self.max_hp_list {
            Some(list) => n < 0 || (n as usize) <= list.len(),
            None => false,
        }
    }

    /// The number of per-player slots.
    pub fn slot_count(&self) -> (r: usize)
        ensures
            r == self.slots(),
    {
        self.chara_list.len()
    }

    /// The effect of `set_initial_stocks`: in a stock or stamina battle,
    /// every player's stock is set to the player's stock limit; nothing
    /// else changes.
    pub open spec fn initial_stocks_set(before: SmashbrosData, after: SmashbrosData) -> bool {
        &&& after.wf()
        &&& Self::others_same(before, after, 4)
        &&& after.stocks().len() == before.stocks().len()
        &&& forall|q: int|
            0 <= q < before.stocks().len() ==> if q < before.player_count() && (before.rule() == BattleRule::Stock
                || before.rule() == BattleRule::Stamina) {
                set_effect(before.stocks()[q], #[trigger] after.stocks()[q], before.max_stock_of(q))
            } else {
                after.stocks()[q] == before.stocks()[q]
            }
    }

    /// The rules of the battle are known: the rule and the time limit, and
    /// in a stock or stamina battle every player's stock limit.
    pub open spec fn rules_decided(&self) -> bool {
        &&& self.rule() != BattleRule::Unknown
        &&& self.max_time() is Some
        &&& (self.rule() == BattleRule::Stock || self.rule() == BattleRule::Stamina
            ==> self.all_decided_max_stock_spec())
    }

    /// Whether the rules of the battle are known (see `rules_decided`).
    pub fn is_decided_rule_all_clause(&self) -> (b: bool)
        ensures
            b == self.rules_decided(),
    {
        if !self.is_decided_rule() || !self.is_decided_max_time() {
            return false;
        }
        match self.rule_name {
            BattleRule::Stock | BattleRule::Stamina => self.all_decided_max_stock(),
            _ => true,
        }
    }

    /// When the rules are decided in a stock or stamina battle, every
    /// player starts with the stock limit as stock.
    pub fn set_initial_stocks(&mut self)
        requires
            old(self).wf(),
            old(self).player_count() <= old(self).slots(),
        ensures
            Self::initial_stocks_set(*old(self), *final(self)),
    {
        match self.rule_name {
            BattleRule::Stock | BattleRule::Stamina => {},
            _ => {
                return;
            },
        }
        let mut p: i32 = 0;
        while p < self.player_count
            invariant
                self.wf(),
                0 <= p,
                self.player_count >= 0 ==> p <= self.player_count,
                self.player_count < 0 ==> p == 0,
                self.player_count <= self.slots(),
                Self::others_same(*old(self), *self, 4),
                self.rule_name == old(self).rule(),
                self.stocks().len() == old(self).stocks().len(),
                forall|q: int|
                    0 <= q < old(self).stocks().len() ==> if q < p {
                        set_effect(old(self).stocks()[q], #[trigger] self.stocks()[q], old(self).max_stock_of(q))
                    } else {
                        self.stocks()[q] == old(self).stocks()[q]
                    },
            decreases self.player_count - p,
        {
            let v = self.get_max_stock(p);
            let ghost before = *self;
            self.set_stock(p, v);
            proof {
                assert(v == old(self).max_stock_of(p as int));
                assert forall|q: int| 0 <= q < old(self).stocks().len() implies (if q < p + 1 {
                    set_effect(old(self).stocks()[q], #[trigger] self.stocks()[q], old(self).max_stock_of(q))
                } else {
                    self.stocks()[q] == old(self).stocks()[q]
                }) by {
                    if q != p {
                        assert(self.stocks()[q] == before.stocks()[q]);
                    }
                }
            }
            p = p + 1;
        }
    }
}

/// The time limit, once known, never changes, and a limit the rule rules
/// out is never taken.
pub proof fn lemma_time_limit_kept(before: SmashbrosData, after: SmashbrosData, secs: u64)
    requires
        SmashbrosData::time_guessed(before, after, secs),
    ensures
        before.max_time() is Some ==> after.max_time() == before.max_time(),
        rule_rejects_time(before.rule(), secs as int) ==> after.max_time() == before.max_time(),
        after.max_time() is Some ==> !rule_rejects_time(before.rule(), after.max_time().unwrap() as int)
            || after.max_time() == before.max_time(),
{
}

/// A stock count that the rule rules out leaves the stocks as they were.
pub proof fn lemma_stock_rule_respected(before: SmashbrosData, after: SmashbrosData, p: i32, stock: i32)
    requires
        SmashbrosData::stock_guessed(before, after, p, stock),
        0 <= p < before.stocks().len(),
        rule_rejects_stock(before.rule(), stock as int),
    ensures
        after.stocks() == before.stocks(),
{
    assert(after.stocks() =~= before.stocks());
}

/// In a one-on-one battle, when a player's placing gets decided, it is
/// the placing observed, and the other player's placing is decided as
/// the other place.
pub proof fn lemma_one_on_one_orders(before: SmashbrosData, after: SmashbrosData, p: i32, v: i32)
    requires
        SmashbrosData::order_guessed(before, after, p, v),
        before.player_count() == 2,
        0 <= p < 2,
        v > i32::MIN + 3,
        !before.decided_order(p as int),
        after.decided_order(p as int),
    ensures
        after.orders()[p as int].value() == v,
        after.orders()[1 - p].decided(),
        after.orders()[1 - p].value() == 3 - v,
{
    let mid = choose|mid: Seq<ValueGuesser<i32>>| #[trigger] SmashbrosData::order_steps(before, mid, after, p as int, v);
    assert(SmashbrosData::order_steps(before, mid, after, p as int, v));
    if mid[p as int].decided() {
        assert(after.orders()[p as int] == mid[p as int]);
    } else {
        assert(after.orders() == mid);
    }
}

} // verus!

