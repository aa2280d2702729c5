//! Reading a stored battle back: the fields of a stored record, in the
//! order the store hands them out, are applied one by one to a cleared
//! record. Decoding the stored document itself is done by the caller.

use vstd::prelude::*;
use crate::data::{
    BattleRule, PlayerGroup, SmashbrosData, group_of_name, header_same, list_set, lists_same, opt_view,
    rule_of_name, value_or_minus_one,
};
use crate::clock::{parse_stored_time, stored_time_millis};
use crate::guesser::{ValueGuesser, set_effect};

verus! {

/// One field of a stored record, with its value.
#[derive(Debug)]
pub enum StoredField {
    /// The key the record is stored under.
    Id(String),
    /// When the battle started, as stored: an RFC 3339 time text.
    StartTime(String),
    /// When the battle ended, as stored: an RFC 3339 time text.
    EndTime(String),
    PlayerCount(i32),
    /// The rule by name: Time, Stock or Stamina.
    RuleName(String),
    /// The time limit as minutes and seconds.
    MaxTime(Vec<i32>),
    MaxStockList(Vec<i32>),
    MaxHpList(Vec<i32>),
    CharaList(Vec<String>),
    /// The groups by name: Red, Blue, Green or Yellow.
    GroupList(Vec<String>),
    StockList(Vec<i32>),
    OrderList(Vec<i32>),
    PowerList(Vec<i32>),
}

/// The per-player list of numbers named `which` (0 stock limits, 1
/// hit-point limits, 4 stocks, 5 placings, 6 powers).
pub open spec fn int_list(d: SmashbrosData, which: int) -> Seq<ValueGuesser<i32>> {
    if which == 0 {
        d.max_stocks().unwrap()
    } else if which == 1 {
        d.max_hps().unwrap()
    } else if which == 4 {
        d.stocks()
    } else if which == 5 {
        d.orders()
    } else {
        d.powers()
    }
}

/// The list named `which` exists.
pub open spec fn has_int_list(d: SmashbrosData, which: int) -> bool {
    &&& (which == 0 ==> d.max_stocks() is Some)
    &&& (which == 1 ==> d.max_hps() is Some)
}

/// `after` is `before` with the first `values.len()` guessers set to the
/// values, in order.
pub open spec fn values_set<K: crate::guesser::GuessKey>(
    before: Seq<ValueGuesser<K>>,
    after: Seq<ValueGuesser<K>>,
    values: Seq<K::V>,
) -> bool {
    &&& after.len() == before.len()
    &&& forall|i: int|
        0 <= i < before.len() ==> if i < values.len() {
            set_effect(before[i], #[trigger] after[i], values[i])
        } else {
            after[i] == before[i]
        }
}

/// The header of `after` is that of `before` but for the fields the
/// caller states.
pub open spec fn lists_kept(before: SmashbrosData, after: SmashbrosData) -> bool {
    &&& lists_same(before, after)
    &&& after.player_count() == before.player_count()
}

/// Whether `field` can be applied to `d`: a list of values has no more
/// values than the record has players' slots for (nor more than a player
/// number can count), and a time limit has minutes and seconds that give a
/// number of seconds.
pub open spec fn field_fits(d: SmashbrosData, field: StoredField) -> bool {
    match field {
        StoredField::MaxTime(t) => t@.len() >= 2 && 0 <= t@[0] && t@[0] <= 35791394 && 0 <= t@[1],
        StoredField::MaxStockList(v) => d.max_stocks() is Some && v@.len() <= d.max_stocks().unwrap().len()
            && v@.len() <= i32::MAX,
        StoredField::MaxHpList(v) => d.max_hps() is Some && v@.len() <= d.max_hps().unwrap().len() && v@.len()
            <= i32::MAX,
        StoredField::CharaList(v) => v@.len() <= d.slots() && v@.len() <= i32::MAX,
        StoredField::GroupList(v) => v@.len() <= d.slots() && v@.len() <= i32::MAX,
        StoredField::StockList(v) => v@.len() <= d.slots() && v@.len() <= i32::MAX,
        StoredField::OrderList(v) => v@.len() <= d.slots() && v@.len() <= i32::MAX,
        StoredField::PowerList(v) => v@.len() <= d.slots() && v@.len() <= i32::MAX,
        _ => true,
    }
}

/// Whether `field` reads: a stored time must be a time text.
pub open spec fn field_reads(field: StoredField) -> bool {
    match field {
        StoredField::StartTime(t) => stored_time_millis(t@) is Some,
        StoredField::EndTime(t) => stored_time_millis(t@) is Some,
        _ => true,
    }
}

/// The effect of applying `field` to `before` at time `now`.
pub open spec fn field_applied(before: SmashbrosData, after: SmashbrosData, field: StoredField, now: i64) -> bool {
    match field {
        StoredField::Id(s) => {
            &&& after.id() == Some(s@)
            &&& after.saved_time() == before.saved_time()
            &&& after.start_time() == before.start_time()
            &&& after.end_time() == before.end_time()
            &&& after.rule() == before.rule()
            &&& after.max_time() == before.max_time()
            &&& lists_kept(before, after)
        },
        StoredField::StartTime(t) => {
            &&& after.start_time() == stored_time_millis(t@)
            &&& after.id() == before.id()
            &&& after.saved_time() == before.saved_time()
            &&& after.end_time() == before.end_time()
            &&& after.rule() == before.rule()
            &&& after.max_time() == before.max_time()
            &&& lists_kept(before, after)
        },
        StoredField::EndTime(t) => {
            &&& after.end_time() == stored_time_millis(t@)
            &&& after.id() == before.id()
            &&& after.saved_time() == before.saved_time()
            &&& after.start_time() == before.start_time()
            &&& after.rule() == before.rule()
            &&& after.max_time() == before.max_time()
            &&& lists_kept(before, after)
        },
        StoredField::PlayerCount(n) => exists|mid: SmashbrosData, set_up: SmashbrosData| #[trigger]
            SmashbrosData::initialize_steps(before, mid, set_up, n as int, now, None) && {
                &&& after.saved_time() == Some(now)
                &&& after.id() == before.id()
                &&& after.start_time() == before.start_time()
                &&& after.end_time() == before.end_time()
                &&& after.rule() == set_up.rule()
                &&& after.max_time() == set_up.max_time()
                &&& lists_kept(set_up, after)
            },
        StoredField::RuleName(s) => {
            &&& after.rule() == rule_of_name(s@)
            &&& after.id() == before.id()
            &&& after.saved_time() == before.saved_time()
            &&& after.start_time() == before.start_time()
            &&& after.end_time() == before.end_time()
            &&& after.max_time() == before.max_time()
            &&& lists_kept(before, after)
        },
        StoredField::MaxTime(t) => {
            &&& after.max_time() == Some((t@[0] * 60 + t@[1]) as u64)
            &&& after.id() == before.id()
            &&& after.saved_time() == before.saved_time()
            &&& after.start_time() == before.start_time()
            &&& after.end_time() == before.end_time()
            &&& after.rule() == before.rule()
            &&& lists_kept(before, after)
        },
        StoredField::CharaList(v) => {
            &&& after.wf()
            &&& SmashbrosData::others_same(before, after, 2)
            &&& values_set(before.charas(), after.charas(), v@.map_values(|s: String| s@))
        },
        StoredField::GroupList(v) => {
            &&& after.wf()
            &&& SmashbrosData::others_same(before, after, 3)
            &&& values_set(before.groups(), after.groups(), v@.map_values(|s: String| group_of_name(s@)))
        },
        StoredField::MaxStockList(v) => int_list_applied(before, after, 0, v@),
        StoredField::MaxHpList(v) => int_list_applied(before, after, 1, v@),
        StoredField::StockList(v) => int_list_applied(before, after, 4, v@),
        StoredField::OrderList(v) => int_list_applied(before, after, 5, v@),
        StoredField::PowerList(v) => int_list_applied(before, after, 6, v@),
    }
}

/// The effect of setting the list of numbers `which` to `values`.
pub open spec fn int_list_applied(before: SmashbrosData, after: SmashbrosData, which: int, values: Seq<i32>) -> bool {
    &&& after.wf()
    &&& SmashbrosData::others_same(before, after, which)
    &&& has_int_list(after, which)
    &&& values_set(int_list(before, which), int_list(after, which), values)
}

/// A record ready to have a stored record read into it: no key, times,
/// rule, time limit or players, and eight slots of guessers that have seen
/// nothing.
pub open spec fn cleared_for_reading(r: SmashbrosData) -> bool {
    &&& r.wf()
    &&& r.id() is None
    &&& r.saved_time() is None
    &&& r.start_time() is None
    &&& r.end_time() is None
    &&& r.rule() == BattleRule::Unknown
    &&& r.max_time() is None
    &&& r.player_count() == 0
    &&& r.slots() == 8
    &&& r.battle_lists_fresh(8, Seq::<char>::empty(), 5)
    &&& r.max_stocks() is Some && r.max_stocks().unwrap().len() == 8
    &&& r.max_hps() is Some && r.max_hps().unwrap().len() == 8
}

impl SmashbrosData {
    /// The record a stored record is read into: a fresh record, cleared.
    pub fn new_cleared() -> (r: SmashbrosData)
        ensures
            cleared_for_reading(r),
    {
        let mut d = SmashbrosData::new();
        proof {
            reveal_strlit("unknown");
            assert(d.charas()[0].value() == Seq::<char>::empty());
            assert(!d.awaiting_battle());
        }
        let cleared = d.initialize_data();
        d
    }

    /// Sets guesser `p` of the list of numbers `which` to `value`.
    fn set_int_entry(&mut self, which: u8, p: i32, value: i32)
        requires
            old(self).wf(),
            which == 0 || which == 1 || which == 4 || which == 5 || which == 6,
            has_int_list(*old(self), which as int),
            0 <= p < int_list(*old(self), which as int).len(),
        ensures
            final(self).wf(),
            SmashbrosData::others_same(*old(self), *final(self), which as int),
            has_int_list(*final(self), which as int),
            list_set(int_list(*old(self), which as int), int_list(*final(self), which as int), p as int, value),
    {
        if which == 0 {
            self.set_max_stock(p, value);
        } else if which == 1 {
            self.set_max_hp(p, value);
        } else if which == 4 {
            self.set_stock(p, value);
        } else if which == 5 {
            self.set_order(p, value);
        } else {
            self.set_power(p, value);
        }
    }

    /// Sets the list of numbers `which` to `values`, from the first player on.
    fn set_int_list(&mut self, which: u8, values: &Vec<i32>)
        requires
            old(self).wf(),
            which == 0 || which == 1 || which == 4 || which == 5 || which == 6,
            has_int_list(*old(self), which as int),
            values@.len() <= int_list(*old(self), which as int).len(),
            values@.len() <= i32::MAX,
        ensures
            int_list_applied(*old(self), *final(self), which as int, values@),
    {
        let ghost w = which as int;
        let mut i: usize = 0;
        while i < values.len()
            invariant
                self.wf(),
                which == 0 || which == 1 || which == 4 || which == 5 || which == 6,
                w == which as int,
                has_int_list(*self, w),
                values@.len() <= int_list(*old(self), w).len(),
                values@.len() <= i32::MAX,
                i <= values@.len(),
                SmashbrosData::others_same(*old(self), *self, w),
                int_list(*self, w).len() == int_list(*old(self), w).len(),
                forall|j: int|
                    0 <= j < int_list(*old(self), w).len() ==> if j < i {
                        set_effect(int_list(*old(self), w)[j], #[trigger] int_list(*self, w)[j], values@[j])
                    } else {
                        int_list(*self, w)[j] == int_list(*old(self), w)[j]
                    },
            decreases values@.len() - i,
        {
            let ghost before = *self;
            self.set_int_entry(which, i as i32, values[i]);
            proof {
                assert forall|j: int| 0 <= j < int_list(*old(self), w).len() && j != i implies int_list(*self, w)[j]
                    == int_list(before, w)[j] by {}
            }
            i = i + 1;
        }
    }

    /// Whether `field` can be applied to the record.
    pub fn stored_field_fits(&self, field: &StoredField) -> (b: bool)
        ensures
            b == field_fits(*self, *field),
    {
        match field {
            StoredField::MaxTime(t) => t.len() >= 2 && 0 <= t[0] && t[0] <= 35791394 && 0 <= t[1],
            StoredField::MaxStockList(v) => match self.max_stock_slot_count() {
                Some(n) => v.len() <= n && v.len() <= 0x7fff_ffff,
                None => false,
            },
            StoredField::MaxHpList(v) => match self.max_hp_slot_count() {
                Some(n) => v.len() <= n && v.len() <= 0x7fff_ffff,
                None => false,
            },
            StoredField::CharaList(v) => v.len() <= self.slot_count() && v.len() <= 0x7fff_ffff,
            StoredField::GroupList(v) => v.len() <= self.slot_count() && v.len() <= 0x7fff_ffff,
            StoredField::StockList(v) => v.len() <= self.slot_count() && v.len() <= 0x7fff_ffff,
            StoredField::OrderList(v) => v.len() <= self.slot_count() && v.len() <= 0x7fff_ffff,
            StoredField::PowerList(v) => v.len() <= self.slot_count() && v.len() <= 0x7fff_ffff,
            _ => true,
        }
    }

    /// Applies one field of a stored record at time `now`: the key, the
    /// rule by name and the time limit (minutes and seconds) are taken as
    /// they are, the times as the stored texts read (returning whether the
    /// text was a time); the player count sets the record up for a battle
    /// of that many players (see `initialize_battle_at`), keeping the key
    /// and the times already read, and marks it saved now; each list sets
    /// the players' values in order.
    pub fn apply_stored_field(&mut self, field: StoredField, now: i64) -> (ok: bool)
        requires
            old(self).wf(),
            old(self).slots() > 0,
            field_fits(*old(self), field),
        ensures
            field_applied(*old(self), *final(self), field, now),
            final(self).wf(),
            ok == field_reads(field),
    {
        let ghost f = field;
        let mut ok = true;
        match field {
            StoredField::Id(s) => self.set_id(Some(s)),
            StoredField::StartTime(t) => {
                let at = parse_stored_time(t.as_str());
                ok = at.is_some();
                self.set_start_time(at);
            },
            StoredField::EndTime(t) => {
                let at = parse_stored_time(t.as_str());
                ok = at.is_some();
                self.set_end_time(at);
            },
            StoredField::PlayerCount(n) => {
                let id = self.get_id();
                let start_time = self.get_start_time();
                let end_time = self.get_end_time();
                self.initialize_battle_at(n, now, None);
                let ghost set_up = *self;
                self.set_id(id);
                self.set_start_time(start_time);
                self.set_end_time(end_time);
                self.set_saved_time(Some(now));
                proof {
                    assert(lists_kept(set_up, *self));
                }
            },
            StoredField::RuleName(s) => self.set_rule(BattleRule::from_name(s.as_str())),
            StoredField::MaxTime(t) => {
                let secs = (t[0] * 60) as u64 + t[1] as u64;
                self.set_max_time(secs);
            },
            StoredField::MaxStockList(v) => self.set_int_list(0, &v),
            StoredField::MaxHpList(v) => self.set_int_list(1, &v),
            StoredField::StockList(v) => self.set_int_list(4, &v),
            StoredField::OrderList(v) => self.set_int_list(5, &v),
            StoredField::PowerList(v) => self.set_int_list(6, &v),
            StoredField::CharaList(v) => {
                let mut i: usize = 0;
                while i < v.len()
                    invariant
                        self.wf(),
                        v@.len() <= old(self).slots(),
                        v@.len() <= i32::MAX,
                        self.slots() == old(self).slots(),
                        i <= v@.len(),
                        SmashbrosData::others_same(*old(self), *self, 2),
                        self.charas().len() == old(self).charas().len(),
                        forall|j: int|
                            0 <= j < old(self).charas().len() ==> if j < i {
                                set_effect(old(self).charas()[j], #[trigger] self.charas()[j], v@[j]@)
                            } else {
                                self.charas()[j] == old(self).charas()[j]
                            },
                    decreases v@.len() - i,
                {
                    let ghost before = *self;
                    self.set_character(i as i32, v[i].clone());
                    proof {
                        assert forall|j: int| 0 <= j < old(self).charas().len() && j != i implies self.charas()[j]
                            == before.charas()[j] by {}
                    }
                    i = i + 1;
                }
            },
            StoredField::GroupList(v) => {
                let mut i: usize = 0;
                while i < v.len()
                    invariant
                        self.wf(),
                        v@.len() <= old(self).slots(),
                        v@.len() <= i32::MAX,
                        self.slots() == old(self).slots(),
                        i <= v@.len(),
                        SmashbrosData::others_same(*old(self), *self, 3),
                        self.groups().len() == old(self).groups().len(),
                        forall|j: int|
                            0 <= j < old(self).groups().len() ==> if j < i {
                                set_effect(old(self).groups()[j], #[trigger] self.groups()[j], group_of_name(v@[j]@))
                            } else {
                                self.groups()[j] == old(self).groups()[j]
                            },
                    decreases v@.len() - i,
                {
                    let ghost before = *self;
                    self.set_group(i as i32, PlayerGroup::from_name(v[i].as_str()));
                    proof {
                        assert forall|j: int| 0 <= j < old(self).groups().len() && j != i implies self.groups()[j]
                            == before.groups()[j] by {}
                    }
                    i = i + 1;
                }
            },
        }
        ok
    }
}

/// The name a rule is stored under.
pub open spec fn rule_name_spec(rule: BattleRule) -> Seq<char> {
    match rule {
        BattleRule::Unknown => "Unknown"@,
        BattleRule::Time => "Time"@,
        BattleRule::Stock => "Stock"@,
        BattleRule::Stamina => "Stamina"@,
    }
}

/// The name a group is stored under.
pub open spec fn group_name_spec(group: PlayerGroup) -> Seq<char> {
    match group {
        PlayerGroup::Unknown => "Unknown"@,
        PlayerGroup::Red => "Red"@,
        PlayerGroup::Blue => "Blue"@,
        PlayerGroup::Green => "Green"@,
        PlayerGroup::Yellow => "Yellow"@,
    }
}

/// The name a rule is stored under.
pub fn rule_name(rule: BattleRule) -> (r: String)
    ensures
        r@ == rule_name_spec(rule),
{
    match rule {
        BattleRule::Unknown => String::from_str("Unknown"),
        BattleRule::Time => String::from_str("Time"),
        BattleRule::Stock => String::from_str("Stock"),
        BattleRule::Stamina => String::from_str("Stamina"),
    }
}

/// The name a group is stored under.
pub fn group_name(group: PlayerGroup) -> (r: String)
    ensures
        r@ == group_name_spec(group),
{
    match group {
        PlayerGroup::Unknown => String::from_str("Unknown"),
        PlayerGroup::Red => String::from_str("Red"),
        PlayerGroup::Blue => String::from_str("Blue"),
        PlayerGroup::Green => String::from_str("Green"),
        PlayerGroup::Yellow => String::from_str("Yellow"),
    }
}

/// The values a record is stored with.
#[derive(Debug)]
pub struct StoredValues {
    pub start_time: Option<i64>,
    pub end_time: Option<i64>,
    pub player_count: i32,
    pub rule_name: String,
    /// The time limit as minutes and seconds.
    pub max_time: Vec<i32>,
    pub max_stock_list: Vec<i32>,
    pub max_hp_list: Vec<i32>,
    pub chara_list: Vec<String>,
    pub group_list: Vec<String>,
    pub stock_list: Vec<i32>,
    pub order_list: Vec<i32>,
    pub power_list: Vec<i32>,
}

/// A time limit in seconds, 0 while there is none.
pub open spec fn time_or_zero(t: Option<u64>) -> u64 {
    match t {
        Some(t) => t,
        None => 0u64,
    }
}

/// `r` holds the values record `d` is stored with: its times, player
/// count, rule by name, time limit as minutes and seconds (when it fits in
/// an `i32`), and every list's guesses (a single -1 for a missing limit
/// list, groups by name).
pub open spec fn stores(d: SmashbrosData, r: StoredValues) -> bool {
    &&& r.start_time == d.start_time()
    &&& r.end_time == d.end_time()
    &&& r.player_count == d.player_count()
    &&& r.rule_name@ == rule_name_spec(d.rule())
    &&& r.max_time@.len() == 2
    &&& (time_or_zero(d.max_time()) <= i32::MAX ==> r.max_time@ == seq![
        (time_or_zero(d.max_time()) / 60) as i32,
        (time_or_zero(d.max_time()) % 60) as i32,
    ])
    &&& r.max_stock_list@ == opt_int_values(d.max_stocks())
    &&& r.max_hp_list@ == opt_int_values(d.max_hps())
    &&& r.chara_list@.map_values(|s: String| s@) == d.charas().map_values(|g: ValueGuesser<String>| g.value())
    &&& r.group_list@.map_values(|s: String| s@) == d.groups().map_values(
        |g: ValueGuesser<PlayerGroup>| group_name_spec(g.value()),
    )
    &&& r.stock_list@ == int_values(d.stocks())
    &&& r.order_list@ == int_values(d.orders())
    &&& r.power_list@ == int_values(d.powers())
}

/// The stored time text `text` stands for the time `t`: both are there,
/// and the text reads as that time, or neither is.
pub open spec fn time_stored(t: Option<i64>, text: Option<String>) -> bool {
    match (t, text) {
        (Some(t), Some(x)) => stored_time_millis(x@) == Some(t),
        (None, None) => true,
        _ => false,
    }
}

/// The fields of a record stored with values `r` under the key `key`, with
/// its times written as `start_text` and `end_text`, in the order the store
/// hands them out: the key and the times where there are any, then the
/// player count, the rule, the time limit and the lists.
pub open spec fn stored_fields(
    r: StoredValues,
    key: Option<String>,
    start_text: Option<String>,
    end_text: Option<String>,
) -> Seq<StoredField> {
    let with_key = match key {
        Some(k) => seq![StoredField::Id(k)],
        None => Seq::<StoredField>::empty(),
    };
    let with_start = match start_text {
        Some(t) => with_key.push(StoredField::StartTime(t)),
        None => with_key,
    };
    let head = match end_text {
        Some(t) => with_start.push(StoredField::EndTime(t)),
        None => with_start,
    };
    head + seq![
        StoredField::PlayerCount(r.player_count),
        StoredField::RuleName(r.rule_name),
        StoredField::MaxTime(r.max_time),
        StoredField::MaxStockList(r.max_stock_list),
        StoredField::MaxHpList(r.max_hp_list),
        StoredField::CharaList(r.chara_list),
        StoredField::GroupList(r.group_list),
        StoredField::StockList(r.stock_list),
        StoredField::OrderList(r.order_list),
        StoredField::PowerList(r.power_list),
    ]
}

/// The guesses of a list of guessers of numbers.
pub open spec fn int_values(s: Seq<ValueGuesser<i32>>) -> Seq<i32> {
    s.map_values(|g: ValueGuesser<i32>| g.value())
}

/// The guesses of an optional list of numbers, a single -1 without one.
pub open spec fn opt_int_values(s: Option<Seq<ValueGuesser<i32>>>) -> Seq<i32> {
    match s {
        Some(l) => int_values(l),
        None => seq![-1i32],
    }
}

pub(crate) fn values_of(list: &Vec<ValueGuesser<i32>>) -> (r: Vec<i32>)
    ensures
        r@ == int_values(list@),
{
    let mut r: Vec<i32> = Vec::new();
    let mut i: usize = 0;
    while i < list.len()
        invariant
            i <= list@.len(),
            r@ == int_values(list@.take(i as int)),
        decreases list@.len() - i,
    {
        r.push(list[i].get());
        proof {
            assert(int_values(list@.take(i + 1)) =~= int_values(list@.take(i as int)).push(list@[i as int].value()));
        }
        i = i + 1;
    }
    proof {
        assert(list@.take(list@.len() as int) =~= list@);
    }
    r
}


/// A rule read back by the name it is stored under is the rule itself.
proof fn lemma_rule_name_round_trip(rule: BattleRule)
    ensures
        rule_of_name(rule_name_spec(rule)) == rule,
{
    reveal_strlit("Unknown");
    reveal_strlit("Time");
    reveal_strlit("Stock");
    reveal_strlit("Stamina");
    assert("Unknown"@.len() == 7 && "Time"@.len() == 4 && "Stock"@.len() == 5 && "Stamina"@.len() == 7);
    assert("Unknown"@ != "Time"@ && "Unknown"@ != "Stock"@);
    assert("Stamina"@ != "Time"@ && "Stamina"@ != "Stock"@);
    assert("Stock"@ != "Time"@);
    assert("Unknown"@ != "Stamina"@) by {
        assert("Unknown"@[0] != "Stamina"@[0]);
    }
}

/// A group read back by the name it is stored under is the group itself.
proof fn lemma_group_name_round_trip(group: PlayerGroup)
    ensures
        group_of_name(group_name_spec(group)) == group,
{
    reveal_strlit("Unknown");
    reveal_strlit("Red");
    reveal_strlit("Blue");
    reveal_strlit("Green");
    reveal_strlit("Yellow");
    assert("Unknown"@.len() == 7 && "Red"@.len() == 3 && "Blue"@.len() == 4 && "Green"@.len() == 5
        && "Yellow"@.len() == 6);
    assert("Unknown"@ != "Red"@ && "Unknown"@ != "Blue"@ && "Unknown"@ != "Green"@ && "Unknown"@ != "Yellow"@);
    assert("Yellow"@ != "Red"@ && "Yellow"@ != "Blue"@ && "Yellow"@ != "Green"@);
    assert("Green"@ != "Red"@ && "Green"@ != "Blue"@);
    assert("Blue"@ != "Red"@);
}

/// Each field of `fields` was applied in turn at time `now`, taking
/// `states[k]` to `states[k + 1]`.
pub open spec fn read_in_turn(states: Seq<SmashbrosData>, fields: Seq<StoredField>, now: i64) -> bool {
    &&& states.len() == fields.len() + 1
    &&& forall|k: int| 0 <= k < fields.len() ==> field_applied(states[k], states[k + 1], #[trigger] fields[k], now)
}

/// Field `field` can be read into `d`: `d` has slots, the field fits them,
/// and a stored time in it is a time text.
pub open spec fn field_ok(d: SmashbrosData, field: StoredField) -> bool {
    &&& d.slots() > 0
    &&& field_fits(d, field)
    &&& field_reads(field)
}

/// Reads a stored battle from its fields, in the order the store hands
/// them out, into a cleared record at time `now`. It fails (None) at the
/// first field that cannot be read into the record as it stands then: one
/// that does not fit its slots, or a time text that is no time.
pub fn read_stored(fields: Vec<StoredField>, now: i64) -> (r: Option<SmashbrosData>)
    ensures
        match r {
            Some(d) => exists|states: Seq<SmashbrosData>|
                #[trigger] read_in_turn(states, fields@, now) && cleared_for_reading(states[0]) && d
                    == states.last() && d.wf(),
            None => exists|states: Seq<SmashbrosData>|
                #[trigger] read_in_turn(states, fields@.take(states.len() - 1), now) && cleared_for_reading(
                    states[0],
                ) && states.len() - 1 < fields@.len() && !field_ok(states.last(), fields@[states.len() - 1]),
        },
{
    let mut d = SmashbrosData::new_cleared();
    let ghost mut states: Seq<SmashbrosData> = seq![d];
    let ghost all = fields@;
    let total = fields.len();
    let mut rest = fields;
    let mut i: usize = 0;
    proof {
        assert(all.take(0) =~= Seq::<StoredField>::empty());
        assert(all.skip(0) =~= all);
    }
    while rest.len() > 0
        invariant
            all == fields@,
            total == all.len(),
            i <= all.len(),
            rest@ == all.skip(i as int),
            states.len() == i + 1,
            cleared_for_reading(states[0]),
            read_in_turn(states, all.take(i as int), now),
            d == states.last(),
            d.wf(),
        decreases rest@.len(),
    {
        let field = rest.remove(0);
        proof {
            assert(field == all[i as int]);
            assert(rest@ =~= all.skip(i + 1));
        }
        if d.slot_count() == 0 || !d.stored_field_fits(&field) {
            proof {
                assert(!field_ok(d, all[i as int]));
                assert(read_in_turn(states, all.take(states.len() - 1), now));
                assert(all == fields@);
                assert(read_in_turn(states, fields@.take(states.len() - 1), now) && cleared_for_reading(states[0])
                    && states.len() - 1 < fields@.len() && !field_ok(states.last(), fields@[states.len() - 1]));
            }
            return None;
        }
        let ghost before = d;
        let ok = d.apply_stored_field(field, now);
        if !ok {
            proof {
                assert(!field_ok(before, all[i as int]));
                assert(read_in_turn(states, all.take(states.len() - 1), now));
                assert(all == fields@);
                assert(read_in_turn(states, fields@.take(states.len() - 1), now) && cleared_for_reading(states[0])
                    && states.len() - 1 < fields@.len() && !field_ok(states.last(), fields@[states.len() - 1]));
            }
            return None;
        }
        proof {
            let old_states = states;
            states = states.push(d);
            let fs = all.take(i + 1);
            assert forall|k: int| 0 <= k < fs.len() implies field_applied(states[k], states[k + 1], #[trigger] fs[k], now) by {
                if k < i {
                    assert(fs[k] == all.take(i as int)[k]);
                    assert(states[k] == old_states[k]);
                    assert(states[k + 1] == old_states[k + 1]);
                } else {
                    assert(fs[k] == all[i as int]);
                }
            }
        }
        i = i + 1;
    }
    proof {
        assert(all.take(i as int) =~= all);
    }
    Some(d)
}

/// A limit of player `p` in an optional list of limits, -1 when unknown.
pub open spec fn limit_of(l: Option<Seq<ValueGuesser<i32>>>, p: int) -> i32 {
    match l {
        Some(s) => value_or_minus_one(s, p),
        None => -1i32,
    }
}

/// Reading a stored battle back gives the battle again: applying the
/// fields of the values `d` is stored with (under its key, with time texts
/// that read as its times), in the order the store hands them out, to a
/// cleared record gives back `d`'s key,
/// times, player count, rule, time limit, and every player's limits,
/// character, group, stock, placing and power. This holds of a record set
/// up for its battle (one slot per player) whose time limit fits the
/// stored minutes and seconds.
pub proof fn lemma_store_round_trip(
    d: SmashbrosData,
    r: StoredValues,
    key: Option<String>,
    start_text: Option<String>,
    end_text: Option<String>,
    states: Seq<SmashbrosData>,
    now: i64,
)
    requires
        d.wf(),
        d.player_count() >= 1,
        d.slots() == d.player_count(),
        time_or_zero(d.max_time()) <= i32::MAX,
        stores(d, r),
        opt_view(key) == d.id(),
        time_stored(d.start_time(), start_text),
        time_stored(d.end_time(), end_text),
        cleared_for_reading(states[0]),
        read_in_turn(states, stored_fields(r, key, start_text, end_text), now),
    ensures
        ({
            let e = states.last();
            &&& e.wf()
            &&& e.id() == d.id()
            &&& e.start_time() == d.start_time()
            &&& e.end_time() == d.end_time()
            &&& e.player_count() == d.player_count()
            &&& e.rule() == d.rule()
            &&& time_or_zero(e.max_time()) == time_or_zero(d.max_time())
            &&& (d.max_time() is Some ==> e.max_time() == d.max_time())
            &&& forall|p: int| 0 <= p < d.player_count() ==>
                #[trigger] limit_of(e.max_stocks(), p) == limit_of(d.max_stocks(), p)
            &&& forall|p: int| 0 <= p < d.player_count() ==>
                #[trigger] limit_of(e.max_hps(), p) == limit_of(d.max_hps(), p)
            &&& forall|p: int| 0 <= p < d.player_count() ==> (#[trigger] e.charas()[p]).value() == d.charas()[p].value()
            &&& forall|p: int| 0 <= p < d.player_count() ==> (#[trigger] e.groups()[p]).value() == d.groups()[p].value()
            &&& forall|p: int| 0 <= p < d.player_count() ==>
                #[trigger] value_or_minus_one(e.stocks(), p) == value_or_minus_one(d.stocks(), p)
            &&& forall|p: int| 0 <= p < d.player_count() ==>
                #[trigger] value_or_minus_one(e.orders(), p) == value_or_minus_one(d.orders(), p)
            &&& forall|p: int| 0 <= p < d.player_count() ==>
                #[trigger] value_or_minus_one(e.powers(), p) == value_or_minus_one(d.powers(), p)
        }),
{
    let f = stored_fields(r, key, start_text, end_text);
    let n = d.player_count() as int;
    let with_key = match key {
        Some(k) => seq![StoredField::Id(k)],
        None => Seq::<StoredField>::empty(),
    };
    let with_start = match start_text {
        Some(t) => with_key.push(StoredField::StartTime(t)),
        None => with_key,
    };
    let head = match end_text {
        Some(t) => with_start.push(StoredField::EndTime(t)),
        None => with_start,
    };
    let h = head.len() as int;
    assert(f.len() == h + 10);
    // the key and the times
    let i1 = with_key.len() as int;
    let i2 = with_start.len() as int;
    assert(f[h] == StoredField::PlayerCount(r.player_count));
    if key is Some {
        assert(f[0] == StoredField::Id(key.unwrap()));
    }
    assert(states[i1].id() == d.id() && lists_kept(states[0], states[i1]));
    assert(states[i1].start_time() is None && states[i1].end_time() is None);
    if start_text is Some {
        assert(f[i1] == StoredField::StartTime(start_text.unwrap()));
    }
    assert(states[i2].id() == d.id() && lists_kept(states[0], states[i2]));
    assert(states[i2].start_time() == d.start_time() && states[i2].end_time() is None);
    if end_text is Some {
        assert(f[i2] == StoredField::EndTime(end_text.unwrap()));
    }
    let a = states[h];
    assert(a.id() == d.id() && a.start_time() == d.start_time() && a.end_time() == d.end_time());
    assert(lists_kept(states[0], a));
    // the player count sets the record up for the battle
    reveal_strlit("unknown");
    assert(states[0].charas()[0].value() == Seq::<char>::empty());
    assert(a.charas() == states[0].charas());
    assert(crate::data::unknown_name().len() == 7);
    assert(a.charas()[0].value() != crate::data::unknown_name());
    assert(!a.awaiting_battle());
    let s1 = states[h + 1];
    assert(field_applied(a, s1, f[h], now));
    let (mid, set_up) = choose|mid: SmashbrosData, set_up: SmashbrosData|
        SmashbrosData::initialize_steps(a, mid, set_up, n, now, None) && {
            &&& s1.saved_time() == Some(now)
            &&& s1.id() == a.id()
            &&& s1.start_time() == a.start_time()
            &&& s1.end_time() == a.end_time()
            &&& s1.rule() == set_up.rule()
            &&& s1.max_time() == set_up.max_time()
            &&& lists_kept(set_up, s1)
        };
    assert(set_up.battle_set_from(mid, n));
    assert(s1.player_count() == n);
    // the rule and the time limit
    let s2 = states[h + 2];
    let s3 = states[h + 3];
    assert(f[h + 1] == StoredField::RuleName(r.rule_name));
    assert(field_applied(s1, s2, f[h + 1], now));
    lemma_rule_name_round_trip(d.rule());
    assert(s2.rule() == d.rule());
    assert(f[h + 2] == StoredField::MaxTime(r.max_time));
    assert(field_applied(s2, s3, f[h + 2], now));
    let t = time_or_zero(d.max_time());
    assert(r.max_time@[0] * 60 + r.max_time@[1] == t);
    assert(s3.max_time() == Some(t));
    // the lists
    let s4 = states[h + 4];
    let s5 = states[h + 5];
    let s6 = states[h + 6];
    let s7 = states[h + 7];
    let s8 = states[h + 8];
    let s9 = states[h + 9];
    assert(states.len() - 1 == h + 10);
    let e = states.last();
    assert(f[h + 3] == StoredField::MaxStockList(r.max_stock_list));
    assert(f[h + 4] == StoredField::MaxHpList(r.max_hp_list));
    assert(f[h + 5] == StoredField::CharaList(r.chara_list));
    assert(f[h + 6] == StoredField::GroupList(r.group_list));
    assert(f[h + 7] == StoredField::StockList(r.stock_list));
    assert(f[h + 8] == StoredField::OrderList(r.order_list));
    assert(f[h + 9] == StoredField::PowerList(r.power_list));
    assert(field_applied(s3, s4, f[h + 3], now));
    assert(field_applied(s4, s5, f[h + 4], now));
    assert(field_applied(s5, s6, f[h + 5], now));
    assert(field_applied(s6, s7, f[h + 6], now));
    assert(field_applied(s7, s8, f[h + 7], now));
    assert(field_applied(s8, s9, f[h + 8], now));
    assert(field_applied(s9, e, f[h + 9], now));
    assert forall|p: int|
        #![trigger limit_of(e.max_stocks(), p)]
        #![trigger limit_of(e.max_hps(), p)]
        #![trigger e.charas()[p]]
        #![trigger e.groups()[p]]
        #![trigger value_or_minus_one(e.stocks(), p)]
        #![trigger value_or_minus_one(e.orders(), p)]
        #![trigger value_or_minus_one(e.powers(), p)]
        0 <= p < d.player_count() implies {
        &&& limit_of(e.max_stocks(), p) == limit_of(d.max_stocks(), p)
        &&& limit_of(e.max_hps(), p) == limit_of(d.max_hps(), p)
        &&& e.charas()[p].value() == d.charas()[p].value()
        &&& e.groups()[p].value() == d.groups()[p].value()
        &&& value_or_minus_one(e.stocks(), p) == value_or_minus_one(d.stocks(), p)
        &&& value_or_minus_one(e.orders(), p) == value_or_minus_one(d.orders(), p)
        &&& value_or_minus_one(e.powers(), p) == value_or_minus_one(d.powers(), p)
    } by {
        assert(s1.charas()[p] == set_up.charas()[p]);
        assert(r.chara_list@.map_values(|s: String| s@)[p] == d.charas().map_values(|g: ValueGuesser<String>| g.value())[p]);
        assert(p < d.groups().len());
        assert(r.group_list@.map_values(|s: String| s@).len() == r.group_list@.len());
        assert(d.groups().map_values(|g: ValueGuesser<PlayerGroup>| group_name_spec(g.value())).len()
            == d.groups().len());
        assert(r.group_list@.len() == d.groups().len());
        assert(r.group_list@.map_values(|s: String| s@)[p] == d.groups().map_values(
            |g: ValueGuesser<PlayerGroup>| group_name_spec(g.value()),
        )[p]);
        assert(r.group_list@[p]@ == group_name_spec(d.groups()[p].value()));
        assert(r.group_list@.map_values(|s: String| group_of_name(s@))[p] == group_of_name(r.group_list@[p]@));
        lemma_group_name_round_trip(d.groups()[p].value());
        assert(set_up.groups().len() == n);
        assert(s6.groups() == s1.groups());
        assert(p < s6.groups().len());
        let gv = r.group_list@.map_values(|s: String| group_of_name(s@));
        assert(values_set(s6.groups(), s7.groups(), gv));
        assert(set_effect(s6.groups()[p], s7.groups()[p], gv[p]));
        assert(e.groups() == s7.groups());
        assert(e.groups()[p].value() == d.groups()[p].value());
        assert(r.stock_list@[p] == d.stocks()[p].value());
        assert(r.order_list@[p] == d.orders()[p].value());
        assert(r.power_list@[p] == d.powers()[p].value());
    }
}

} // verus!
