//! What the scenes read from recognised text: the time limit, the stock
//! and hit-point limits on the rule screen, the stocks during the battle,
//! and power, placings and final stocks on the result screen.
//!
//! The text itself comes from character recognition done by the caller;
//! here it is matched, parsed and counted into the battle record.

use vstd::prelude::*;
use crate::capture::Rect;
use crate::data::{BattleRule, SmashbrosData, header_same, list_set, lists_same, names_contain, opt_view, rule_rejects_stock, unknown_name};
use crate::guesser::{guess_effect, set_effect, ValueGuesser};
use crate::parse::{parse_i32, parse_u64, parsed_i32, parsed_u64};
use crate::textmatch::{delete_matches, first_capture, regex_first_group, regex_without_matches};

verus! {

/// The number a reading stands for as an unsigned count: its parsed value,
/// 0 when it does not parse, 0 when there was no reading.
pub open spec fn count_reading(reading: Option<Seq<char>>) -> int {
    match reading {
        Some(s) => match parsed_u64(s) {
            Some(v) => v as int,
            None => 0,
        },
        None => 0,
    }
}

/// The number a reading stands for as a signed value: its parsed value,
/// `unparsed` when it does not parse, `missing` when there was no reading.
pub open spec fn value_reading(reading: Option<Seq<char>>, unparsed: int, missing: int) -> int {
    match reading {
        Some(s) => match parsed_i32(s) {
            Some(v) => v as int,
            None => unparsed,
        },
        None => missing,
    }
}

fn count_of_reading(reading: &Option<String>) -> (r: u64)
    ensures
        r == count_reading(opt_view(*reading)),
{
    match reading {
        Some(s) => match parse_u64(s.as_str()) {
            Some(v) => v,
            None => 0,
        },
        None => 0,
    }
}

fn value_of_reading(reading: &Option<String>, unparsed: i32, missing: i32) -> (r: i32)
    ensures
        r == value_reading(opt_view(*reading), unparsed as int, missing as int),
{
    match reading {
        Some(s) => match parse_i32(s.as_str()) {
            Some(v) => v,
            None => unparsed,
        },
        None => missing,
    }
}

/// The first capture group of `regex_pattern` in recognised `text`:
/// the part of the reading that stands for the number.
pub fn captured_convert_number(text: &str, regex_pattern: &str) -> (r: Option<String>)
    ensures
        opt_view(r) == regex_first_group(regex_pattern@, text@),
{
    first_capture(regex_pattern, text)
}

/// A single digit, as the limits on the rule screen are read.
pub open spec fn single_digit_pattern() -> Seq<char> {
    "\\s*(\\d)\\s*"@
}

/// One or more digits.
pub open spec fn digits_pattern() -> Seq<char> {
    "\\s*(\\d+)\\s*"@
}

/// Anything but digits.
pub open spec fn non_digits_pattern() -> Seq<char> {
    "[^\\d]+"@
}

/// Counts the time limit read from the minutes field of a rule screen:
/// the reading in minutes, 0 when it does not parse or is missing.
pub fn captured_time_from_reading(smashbros_data: &mut SmashbrosData, reading: &Option<String>)
    requires
        count_reading(opt_view(*reading)) * 60 <= u64::MAX,
    ensures
        SmashbrosData::time_guessed(
            *old(smashbros_data),
            *final(smashbros_data),
            (count_reading(opt_view(*reading)) * 60) as u64,
        ),
{
    let minutes = count_of_reading(reading);
    smashbros_data.guess_max_time(minutes * 60);
}

/// The effect of the minutes text `text` on the time limit: the minutes
/// read, times 60, are counted; a reading too large for a number of
/// seconds changes nothing.
pub open spec fn time_read(before: SmashbrosData, after: SmashbrosData, text: Seq<char>) -> bool {
    let reading = regex_first_group(single_digit_pattern(), text);
    if count_reading(reading) * 60 <= u64::MAX {
        SmashbrosData::time_guessed(before, after, (count_reading(reading) * 60) as u64)
    } else {
        after == before
    }
}

/// Counts the time limit read from recognised minutes text. A reading too
/// large to be a number of minutes leaves the record unchanged.
pub fn captured_time(smashbros_data: &mut SmashbrosData, text: &str)
    ensures
        time_read(*old(smashbros_data), *final(smashbros_data), text@),
{
    let pattern = "\\s*(\\d)\\s*";
    proof {
        assert(pattern@ == single_digit_pattern());
    }
    let reading = captured_convert_number(text, pattern);
    if count_of_reading(&reading) <= u64::MAX / 60 {
        captured_time_from_reading(smashbros_data, &reading);
    }
}

/// Counts the time limit read from the minutes and seconds fields of a
/// time battle: minutes times 60 plus seconds.
pub fn captured_time_with_sec_from_readings(
    smashbros_data: &mut SmashbrosData,
    reading: &Option<String>,
    sec_reading: &Option<String>,
)
    requires
        count_reading(opt_view(*reading)) * 60 + count_reading(opt_view(*sec_reading)) <= u64::MAX,
    ensures
        SmashbrosData::time_guessed(
            *old(smashbros_data),
            *final(smashbros_data),
            (count_reading(opt_view(*reading)) * 60 + count_reading(opt_view(*sec_reading))) as u64,
        ),
{
    let minutes = count_of_reading(reading);
    let secs = count_of_reading(sec_reading);
    smashbros_data.guess_max_time(minutes * 60 + secs);
}

/// The effect of the minutes text `text` and seconds text `sec_text` on
/// the time limit: minutes times 60 plus seconds are counted; a reading too
/// large for a number of seconds changes nothing.
pub open spec fn time_with_sec_read(before: SmashbrosData, after: SmashbrosData, text: Seq<char>, sec_text: Seq<char>) -> bool {
    let reading = regex_first_group(single_digit_pattern(), text);
    let sec_reading = regex_first_group(digits_pattern(), sec_text);
    let secs = count_reading(reading) * 60 + count_reading(sec_reading);
    if secs <= u64::MAX {
        SmashbrosData::time_guessed(before, after, secs as u64)
    } else {
        after == before
    }
}

/// Counts the time limit read from recognised minutes and seconds text. A
/// reading too large for a number of seconds leaves the record unchanged.
pub fn captured_time_with_sec(smashbros_data: &mut SmashbrosData, text: &str, sec_text: &str)
    ensures
        time_with_sec_read(*old(smashbros_data), *final(smashbros_data), text@, sec_text@),
{
    let pattern = "\\s*(\\d)\\s*";
    let sec_pattern = "\\s*(\\d+)\\s*";
    proof {
        assert(pattern@ == single_digit_pattern());
        assert(sec_pattern@ == digits_pattern());
    }
    let reading = captured_convert_number(text, pattern);
    let sec_reading = captured_convert_number(sec_text, sec_pattern);
    let minutes = count_of_reading(&reading);
    let secs = count_of_reading(&sec_reading);
    if minutes <= u64::MAX / 60 && secs <= u64::MAX - minutes * 60 {
        captured_time_with_sec_from_readings(smashbros_data, &reading, &sec_reading);
    }
}


/// The effect of counting `stock` as the stock limit of every player.
pub open spec fn max_stocks_all_guessed(before: SmashbrosData, after: SmashbrosData, stock: i32) -> bool {
    &&& after.wf()
    &&& if before.player_count() <= 0 || rule_rejects_stock(before.rule(), stock as int) {
        after == before
    } else {
        let b = before.max_stocks().unwrap();
        let a = after.max_stocks().unwrap();
        &&& SmashbrosData::others_same(before, after, 0)
        &&& before.max_stocks() is Some
        &&& after.max_stocks() is Some
        &&& a.len() == b.len()
        &&& forall|q: int|
            0 <= q < b.len() ==> if q < before.player_count() && !before.decided_max_stock(q) {
                guess_effect(b[q], #[trigger] a[q], stock)
            } else {
                a[q] == b[q]
            }
    }
}

/// Counts `stock` as an observation of the stock limit of every player.
pub fn guess_max_stock_all(smashbros_data: &mut SmashbrosData, stock: i32)
    requires
        old(smashbros_data).wf(),
        old(smashbros_data).player_count() <= 0 || rule_rejects_stock(old(smashbros_data).rule(), stock as int)
            || (old(smashbros_data).max_stocks() is Some && old(smashbros_data).player_count()
            <= old(smashbros_data).max_stocks().unwrap().len()),
    ensures
        max_stocks_all_guessed(*old(smashbros_data), *final(smashbros_data), stock),
{
    let n = smashbros_data.get_player_count();
    let mut p: i32 = 0;
    while p < n
        invariant
            smashbros_data.wf(),
            n == old(smashbros_data).player_count(),
            0 <= p,
            n >= 0 ==> p <= n,
            n < 0 ==> p == 0,
            n <= 0 || rule_rejects_stock(old(smashbros_data).rule(), stock as int) ==> *smashbros_data
                == *old(smashbros_data),
            n > 0 && !rule_rejects_stock(old(smashbros_data).rule(), stock as int) ==> {
                let b = old(smashbros_data).max_stocks().unwrap();
                let a = smashbros_data.max_stocks().unwrap();
                &&& SmashbrosData::others_same(*old(smashbros_data), *smashbros_data, 0)
                &&& old(smashbros_data).max_stocks() is Some
                &&& smashbros_data.max_stocks() is Some
                &&& n <= b.len()
                &&& a.len() == b.len()
                &&& forall|q: int|
                    0 <= q < b.len() ==> if q < p && !old(smashbros_data).decided_max_stock(q) {
                        guess_effect(b[q], #[trigger] a[q], stock)
                    } else {
                        a[q] == b[q]
                    }
            },
        decreases n - p,
    {
        let ghost before = *smashbros_data;
        smashbros_data.guess_max_stock(p, stock);
        proof {
            if !rule_rejects_stock(old(smashbros_data).rule(), stock as int) {
                assert(n > 0);
                let b = old(smashbros_data).max_stocks().unwrap();
                let a = smashbros_data.max_stocks().unwrap();
                assert(before.decided_max_stock(p as int) == old(smashbros_data).decided_max_stock(p as int));
                assert forall|q: int| 0 <= q < b.len() implies (if q < p + 1 && !old(
                    smashbros_data,
                ).decided_max_stock(q) {
                    guess_effect(b[q], #[trigger] a[q], stock)
                } else {
                    a[q] == b[q]
                }) by {
                    if q != p {
                        assert(a[q] == before.max_stocks().unwrap()[q]);
                    }
                }
            }
        }
        p = p + 1;
    }
}

/// The effect of counting `hp` as the hit-point limit of every player
/// whose hit-point limit is not known yet.
pub open spec fn max_hps_all_guessed(before: SmashbrosData, after: SmashbrosData, hp: i32) -> bool {
    &&& after.wf()
    &&& if before.player_count() <= 0 || before.all_decided_max_hp_spec() {
        after == before
    } else {
        let b = before.max_hps().unwrap();
        let a = after.max_hps().unwrap();
        &&& SmashbrosData::others_same(before, after, 1)
        &&& before.max_hps() is Some
        &&& after.max_hps() is Some
        &&& a.len() == b.len()
        &&& forall|q: int|
            0 <= q < b.len() ==> if q < before.player_count() && !before.decided_max_hp(q) {
                guess_effect(b[q], #[trigger] a[q], hp)
            } else {
                a[q] == b[q]
            }
    }
}

/// Every player whose hit-point limit is unknown has a hit-point limit slot.
pub open spec fn hp_slots_for_undecided(d: SmashbrosData) -> bool {
    forall|p: int|
        0 <= p < d.player_count() ==> #[trigger] d.decided_max_hp(p) || (d.max_hps() is Some && p
            < d.max_hps().unwrap().len())
}

/// Counts `hp` as an observation of the hit-point limit of every player
/// whose hit-point limit is not known yet.
pub fn guess_max_hp_all(smashbros_data: &mut SmashbrosData, hp: i32)
    requires
        old(smashbros_data).wf(),
        hp_slots_for_undecided(*old(smashbros_data)),
    ensures
        max_hps_all_guessed(*old(smashbros_data), *final(smashbros_data), hp),
{
    let n = smashbros_data.get_player_count();
    let mut p: i32 = 0;
    while p < n
        invariant
            smashbros_data.wf(),
            n == old(smashbros_data).player_count(),
            0 <= p,
            n >= 0 ==> p <= n,
            n < 0 ==> p == 0,
            hp_slots_for_undecided(*old(smashbros_data)),
            smashbros_data.max_stocks() == old(smashbros_data).max_stocks(),
            SmashbrosData::others_same(*old(smashbros_data), *smashbros_data, 1),
            (exists|q: int| 0 <= q < p && !old(smashbros_data).decided_max_hp(q)) ==> {
                let b = old(smashbros_data).max_hps().unwrap();
                let a = smashbros_data.max_hps().unwrap();
                &&& old(smashbros_data).max_hps() is Some
                &&& smashbros_data.max_hps() is Some
                &&& a.len() == b.len()
                &&& forall|q: int|
                    0 <= q < b.len() ==> if q < p && !old(smashbros_data).decided_max_hp(q) {
                        guess_effect(b[q], #[trigger] a[q], hp)
                    } else {
                        a[q] == b[q]
                    }
            },
            !(exists|q: int| 0 <= q < p && !old(smashbros_data).decided_max_hp(q)) ==> *smashbros_data
                == *old(smashbros_data),
        decreases n - p,
    {
        let ghost before = *smashbros_data;
        proof {
            assert(old(smashbros_data).decided_max_hp(p as int) || (old(smashbros_data).max_hps() is Some
                && p < old(smashbros_data).max_hps().unwrap().len()));
            assert(before.decided_max_hp(p as int) == old(smashbros_data).decided_max_hp(p as int));
        }
        smashbros_data.guess_max_hp(p, hp);
        proof {
            if !old(smashbros_data).decided_max_hp(p as int) {
                let b = old(smashbros_data).max_hps().unwrap();
                let a = smashbros_data.max_hps().unwrap();
                assert forall|q: int| 0 <= q < b.len() implies (if q < p + 1 && !old(
                    smashbros_data,
                ).decided_max_hp(q) {
                    guess_effect(b[q], #[trigger] a[q], hp)
                } else {
                    a[q] == b[q]
                }) by {
                    if q != p {
                        if exists|r: int| 0 <= r < p && !old(smashbros_data).decided_max_hp(r) {
                            assert(a[q] == before.max_hps().unwrap()[q]);
                        } else {
                            assert(a[q] == before.max_hps().unwrap()[q]);
                        }
                    }
                }
            }
        }
        p = p + 1;
    }
    proof {
        if !(old(smashbros_data).player_count() <= 0 || old(smashbros_data).all_decided_max_hp_spec()) {
            let q = choose|q: int| 0 <= q < n && !#[trigger] old(smashbros_data).decided_max_hp(q);
            assert(exists|r: int| 0 <= r < p && !old(smashbros_data).decided_max_hp(r));
        } else if old(smashbros_data).player_count() > 0 {
            assert(!(exists|r: int| 0 <= r < p && !old(smashbros_data).decided_max_hp(r))) by {
                assert forall|r: int| 0 <= r < p implies old(smashbros_data).decided_max_hp(r) by {
                    assert(old(smashbros_data).decided_max_hp(r));
                }
            }
        }
    }
}

/// Counts the stock limit read on the rule screen for every player: the
/// reading, -1 when it does not parse, 0 when it is missing.
pub fn captured_stock_from_reading(smashbros_data: &mut SmashbrosData, reading: &Option<String>)
    requires
        old(smashbros_data).wf(),
        ({
            let stock = value_reading(opt_view(*reading), -1, 0);
            old(smashbros_data).player_count() <= 0 || rule_rejects_stock(old(smashbros_data).rule(), stock)
                || (old(smashbros_data).max_stocks() is Some && old(smashbros_data).player_count()
                <= old(smashbros_data).max_stocks().unwrap().len())
        }),
    ensures
        max_stocks_all_guessed(
            *old(smashbros_data),
            *final(smashbros_data),
            value_reading(opt_view(*reading), -1, 0) as i32,
        ),
{
    let stock = value_of_reading(reading, -1, 0);
    guess_max_stock_all(smashbros_data, stock);
}

/// The effect of the stock-limit text `text` on the record: the stock
/// read is counted as every player's stock limit; when some player the
/// reading would be counted for has no slot, nothing changes.
pub open spec fn stock_limit_read(before: SmashbrosData, after: SmashbrosData, text: Seq<char>) -> bool {
    let stock = value_reading(regex_first_group(single_digit_pattern(), text), -1, 0);
    if before.player_count() <= 0 || rule_rejects_stock(before.rule(), stock) || (before.max_stocks() is Some
        && before.player_count() <= before.max_stocks().unwrap().len()) {
        max_stocks_all_guessed(before, after, stock as i32)
    } else {
        after == before
    }
}

/// Counts the stock limit read from recognised text for every player.
/// When the record has no stock-limit slot for some player the reading
/// would be counted for, the record is left unchanged.
pub fn captured_stock(smashbros_data: &mut SmashbrosData, text: &str)
    requires
        old(smashbros_data).wf(),
    ensures
        stock_limit_read(*old(smashbros_data), *final(smashbros_data), text@),
{
    let pattern = "\\s*(\\d)\\s*";
    proof {
        assert(pattern@ == single_digit_pattern());
    }
    let reading = captured_convert_number(text, pattern);
    let stock = value_of_reading(&reading, -1, 0);
    let n = smashbros_data.get_player_count();
    let rejects = match smashbros_data.get_rule() {
        crate::data::BattleRule::Stock | crate::data::BattleRule::Stamina => stock < 1 || 3 < stock,
        _ => false,
    };
    if n <= 0 || rejects || smashbros_data.has_max_stock_slots(n) {
        captured_stock_from_reading(smashbros_data, &reading);
    }
}

/// The hit-point limit a reading stands for: ten times the reading, -10
/// when it does not parse, 0 when it is missing.
pub open spec fn hp_reading(reading: Option<Seq<char>>) -> int {
    match reading {
        Some(s) => value_reading(reading, -1, 0) * 10,
        None => 0,
    }
}

/// Counts the hit-point limit read on the rule screen for every player whose
/// hit-point limit is not known yet.
pub fn captured_stamina_from_reading(smashbros_data: &mut SmashbrosData, reading: &Option<String>)
    requires
        old(smashbros_data).wf(),
        hp_slots_for_undecided(*old(smashbros_data)),
        i32::MIN <= hp_reading(opt_view(*reading)) <= i32::MAX,
    ensures
        max_hps_all_guessed(*old(smashbros_data), *final(smashbros_data), hp_reading(opt_view(*reading)) as i32),
{
    let hp: i32 = match reading {
        Some(_) => value_of_reading(reading, -1, 0) * 10,
        None => 0,
    };
    guess_max_hp_all(smashbros_data, hp);
}

/// The effect of the hit-point text `text` on the record: ten times the
/// number read is counted as the hit-point limit of every player whose
/// hit-point limit is not known; when that is too large, or some such player
/// has no slot, nothing changes.
pub open spec fn hp_limit_read(before: SmashbrosData, after: SmashbrosData, text: Seq<char>) -> bool {
    let hp = hp_reading(regex_first_group(digits_pattern(), text));
    if hp_slots_for_undecided(before) && i32::MIN <= hp <= i32::MAX {
        max_hps_all_guessed(before, after, hp as i32)
    } else {
        after == before
    }
}

/// Counts the hit-point limit read from recognised text. When the reading
/// is too large for a hit-point value, or some player lacks a slot for it,
/// the record is left unchanged.
pub fn captured_stamina(smashbros_data: &mut SmashbrosData, text: &str)
    requires
        old(smashbros_data).wf(),
    ensures
        hp_limit_read(*old(smashbros_data), *final(smashbros_data), text@),
{
    let pattern = "\\s*(\\d+)\\s*";
    proof {
        assert(pattern@ == digits_pattern());
    }
    let reading = captured_convert_number(text, pattern);
    let v = value_of_reading(&reading, -1, 0);
    if v < -214748364 || 214748364 < v {
        return;
    }
    if !hp_slots_ok(smashbros_data) {
        return;
    }
    captured_stamina_from_reading(smashbros_data, &reading);
}

fn hp_slots_ok(d: &SmashbrosData) -> (b: bool)
    ensures
        b == hp_slots_for_undecided(*d),
{
    let n = d.get_player_count();
    let has = d.has_max_hp_slots(n);
    let mut p: i32 = 0;
    while p < n
        invariant
            n == d.player_count(),
            0 <= p,
            n >= 0 ==> p <= n,
            n < 0 ==> p == 0,
            has == (d.max_hps() is Some && n <= d.max_hps().unwrap().len()),
            forall|q: int| 0 <= q < p ==> #[trigger] d.decided_max_hp(q) || (d.max_hps() is Some && q
                < d.max_hps().unwrap().len()),
        decreases n - p,
    {
        if !d.is_decided_max_hp(p) && !(has || d.has_max_hp_slots(p + 1)) {
            return false;
        }
        p = p + 1;
    }
    true
}


/// The stock a reading of the stock field stands for: the digit captured
/// (-1 when it does not parse), or nothing when no digit was found.
pub open spec fn stock_value_reading(reading: Option<Seq<char>>) -> Option<i32> {
    match reading {
        Some(s) => Some(value_reading(Some(s), -1, 0) as i32),
        None => None,
    }
}

/// The stock a recognised in-battle text stands for.
pub open spec fn stock_number_reading(text: Seq<char>) -> Option<i32> {
    stock_value_reading(regex_first_group(single_digit_pattern(), text))
}

/// The effect of counting, for every player whose stock is not decided,
/// the stock read for that player (when one was read).
pub open spec fn stocks_read(before: SmashbrosData, after: SmashbrosData, readings: Seq<Option<i32>>) -> bool {
    let b = before.stocks();
    let a = after.stocks();
    &&& after.wf()
    &&& SmashbrosData::others_same(before, after, 4)
    &&& a.len() == b.len()
    &&& forall|q: int|
        0 <= q < b.len() ==> if q < before.player_count() && !before.decided_stock(q) && readings[q] is Some {
            SmashbrosData::stock_entry_guessed(before.rule(), b[q], #[trigger] a[q], readings[q].unwrap())
        } else {
            a[q] == b[q]
        }
}

/// Counts the stocks read during a battle: `readings[p]` is the digit
/// captured where player `p`'s stock is shown, if any. Players whose stock
/// is decided are skipped. Returns whether every player was skipped.
pub fn captured_stock_number_from_readings(smashbros_data: &mut SmashbrosData, readings: &Vec<Option<String>>) -> (r: bool)
    requires
        old(smashbros_data).wf(),
        old(smashbros_data).player_count() <= 0 || old(smashbros_data).player_count() <= old(
            smashbros_data,
        ).slots(),
        old(smashbros_data).player_count() <= readings@.len(),
    ensures
        stocks_read(
            *old(smashbros_data),
            *final(smashbros_data),
            readings@.map_values(|t: Option<String>| stock_value_reading(opt_view(t))),
        ),
        r == (old(smashbros_data).player_count() >= 0 && old(smashbros_data).all_decided_stock_spec()),
{
    let ghost values = readings@.map_values(|t: Option<String>| stock_value_reading(opt_view(t)));
    let n = smashbros_data.get_player_count();
    let mut skip_count: i32 = 0;
    let mut p: i32 = 0;
    while p < n
        invariant
            smashbros_data.wf(),
            n == old(smashbros_data).player_count(),
            n <= 0 || n <= old(smashbros_data).slots(),
            n <= readings@.len(),
            values == readings@.map_values(|t: Option<String>| stock_value_reading(opt_view(t))),
            0 <= p,
            n >= 0 ==> p <= n,
            n < 0 ==> p == 0,
            0 <= skip_count <= p,
            skip_count == p <==> forall|q: int| 0 <= q < p ==> #[trigger] old(smashbros_data).decided_stock(q),
            smashbros_data.slots() == old(smashbros_data).slots(),
            smashbros_data.rule() == old(smashbros_data).rule(),
            ({
                let b = old(smashbros_data).stocks();
                let a = smashbros_data.stocks();
                &&& SmashbrosData::others_same(*old(smashbros_data), *smashbros_data, 4)
                &&& a.len() == b.len()
                &&& forall|q: int|
                    0 <= q < b.len() ==> if q < p && !old(smashbros_data).decided_stock(q) && values[q] is Some {
                        SmashbrosData::stock_entry_guessed(old(smashbros_data).rule(), b[q], #[trigger] a[q], values[q].unwrap())
                    } else {
                        a[q] == b[q]
                    }
            }),
        decreases n - p,
    {
        let ghost before = *smashbros_data;
        proof {
            assert(before.stocks()[p as int] == old(smashbros_data).stocks()[p as int]);
            assert(before.decided_stock(p as int) == old(smashbros_data).decided_stock(p as int));
        }
        if smashbros_data.is_decided_stock(p) {
            skip_count = skip_count + 1;
        } else {
            let reading = &readings[p as usize];
            proof {
                assert(values[p as int] == stock_value_reading(opt_view(readings@[p as int])));
            }
            if reading.is_some() {
                let number = value_of_reading(reading, -1, 0);
                smashbros_data.guess_stock(p, number);
                proof {
                    let b = old(smashbros_data).stocks();
                    let a = smashbros_data.stocks();
                    assert forall|q: int| 0 <= q < b.len() && q != p implies a[q] == before.stocks()[q] by {}
                }
            }
        }
        p = p + 1;
    }
    n == skip_count
}

/// Counts the stocks read during a battle: `texts[p]` is the text recognised
/// where player `p`'s stock is shown. Players whose stock is decided are
/// skipped. Returns whether every player was skipped.
pub fn captured_stock_number(smashbros_data: &mut SmashbrosData, texts: &Vec<String>) -> (r: bool)
    requires
        old(smashbros_data).wf(),
        old(smashbros_data).player_count() <= 0 || old(smashbros_data).player_count() <= old(
            smashbros_data,
        ).slots(),
        old(smashbros_data).player_count() <= texts@.len(),
    ensures
        stocks_read(
            *old(smashbros_data),
            *final(smashbros_data),
            texts@.map_values(|t: String| stock_number_reading(t@)),
        ),
        r == (old(smashbros_data).player_count() >= 0 && old(smashbros_data).all_decided_stock_spec()),
{
    let pattern = "\\s*(\\d)\\s*";
    proof {
        assert(pattern@ == single_digit_pattern());
    }
    let mut readings: Vec<Option<String>> = Vec::new();
    let mut i: usize = 0;
    while i < texts.len()
        invariant
            pattern@ == single_digit_pattern(),
            i <= texts@.len(),
            readings@.len() == i,
            forall|k: int| 0 <= k < i ==> #[trigger] opt_view(readings@[k]) == regex_first_group(single_digit_pattern(), texts@[k]@),
        decreases texts@.len() - i,
    {
        let reading = captured_convert_number(texts[i].as_str(), pattern);
        readings.push(reading);
        i = i + 1;
    }
    proof {
        assert(readings@.map_values(|t: Option<String>| stock_value_reading(opt_view(t)))
            =~= texts@.map_values(|t: String| stock_number_reading(t@)));
    }
    captured_stock_number_from_readings(smashbros_data, &readings)
}

/// The power a recognised result text stands for: its digits read as a
/// number, -1 when they do not parse.
pub open spec fn power_reading(text: Seq<char>) -> i32 {
    match parsed_i32(regex_without_matches(non_digits_pattern(), text)) {
        Some(v) => v,
        None => -1i32,
    }
}

/// Every player can be given a power reading: there is a slot for each,
/// or there are no slots and no reading would be counted.
pub open spec fn power_slots_ok(d: SmashbrosData, numbers: Seq<i32>) -> bool {
    &&& d.slots() > 0 ==> d.player_count() <= d.slots()
    &&& d.slots() == 0 ==> forall|p: int| 0 <= p < d.player_count() ==> #[trigger] numbers[p] < 10
}

/// The effect of counting `numbers[p]` as the power of every player `p`.
pub open spec fn powers_read(before: SmashbrosData, after: SmashbrosData, numbers: Seq<i32>) -> bool {
    let b = before.powers();
    let a = after.powers();
    &&& after.wf()
    &&& SmashbrosData::others_same(before, after, 6)
    &&& a.len() == b.len()
    &&& forall|q: int|
        0 <= q < b.len() ==> if q < before.player_count() && !before.decided_power(q) && numbers[q] >= 10 {
            guess_effect(b[q], #[trigger] a[q], numbers[q])
        } else {
            a[q] == b[q]
        }
}

/// Counts the power read for each player on the result screen. Returns
/// whether every player's power is decided afterwards.
pub fn captured_power_from_readings(smashbros_data: &mut SmashbrosData, numbers: &Vec<i32>) -> (r: bool)
    requires
        old(smashbros_data).wf(),
        old(smashbros_data).player_count() <= numbers@.len(),
        power_slots_ok(*old(smashbros_data), numbers@),
    ensures
        powers_read(*old(smashbros_data), *final(smashbros_data), numbers@),
        r == final(smashbros_data).all_decided_power_spec(),
{
    let n = smashbros_data.get_player_count();
    let mut p: i32 = 0;
    while p < n
        invariant
            smashbros_data.wf(),
            n == old(smashbros_data).player_count(),
            n <= numbers@.len(),
            power_slots_ok(*old(smashbros_data), numbers@),
            0 <= p,
            n >= 0 ==> p <= n,
            n < 0 ==> p == 0,
            smashbros_data.slots() == old(smashbros_data).slots(),
            smashbros_data.player_count() == old(smashbros_data).player_count(),
            ({
                let b = old(smashbros_data).powers();
                let a = smashbros_data.powers();
                &&& SmashbrosData::others_same(*old(smashbros_data), *smashbros_data, 6)
                &&& a.len() == b.len()
                &&& forall|q: int|
                    0 <= q < b.len() ==> if q < p && !old(smashbros_data).decided_power(q) && numbers@[q] >= 10 {
                        guess_effect(b[q], #[trigger] a[q], numbers@[q])
                    } else {
                        a[q] == b[q]
                    }
            }),
        decreases n - p,
    {
        let ghost before = *smashbros_data;
        proof {
            if old(smashbros_data).slots() == 0 {
                assert(numbers@[p as int] < 10);
            }
        }
        smashbros_data.guess_power(p, numbers[p as usize]);
        proof {
            let b = old(smashbros_data).powers();
            let a = smashbros_data.powers();
            assert forall|q: int| 0 <= q < b.len() && q != p implies a[q] == before.powers()[q] by {}
        }
        p = p + 1;
    }
    smashbros_data.all_decided_power()
}

/// Counts the power read from the recognised result text of each player.
/// When some player has no slot for a reading that would be counted, the
/// record is left unchanged. Returns whether every power is decided.
pub fn captured_power(smashbros_data: &mut SmashbrosData, texts: &Vec<String>) -> (r: bool)
    requires
        old(smashbros_data).wf(),
        old(smashbros_data).player_count() <= texts@.len(),
        old(smashbros_data).all_checkable(),
    ensures
        ({
            let numbers = texts@.map_values(|t: String| power_reading(t@));
            if power_slots_ok(*old(smashbros_data), numbers) {
                powers_read(*old(smashbros_data), *final(smashbros_data), numbers)
            } else {
                *final(smashbros_data) == *old(smashbros_data)
            }
        }),
        r == final(smashbros_data).all_decided_power_spec(),
{
    let ghost spec_numbers = texts@.map_values(|t: String| power_reading(t@));
    let pattern = "[^\\d]+";
    proof {
        assert(pattern@ == non_digits_pattern());
    }
    let mut numbers: Vec<i32> = Vec::new();
    let mut i: usize = 0;
    while i < texts.len()
        invariant
            pattern@ == non_digits_pattern(),
            spec_numbers == texts@.map_values(|t: String| power_reading(t@)),
            i <= texts@.len(),
            numbers@.len() == i,
            forall|k: int| 0 <= k < i ==> #[trigger] numbers@[k] == spec_numbers[k],
        decreases texts@.len() - i,
    {
        let digits = delete_matches(pattern, texts[i].as_str());
        let v: i32 = match parse_i32(digits.as_str()) {
            Some(v) => v,
            None => -1,
        };
        numbers.push(v);
        i = i + 1;
    }
    proof {
        assert(numbers@ =~= spec_numbers);
    }
    let n = smashbros_data.get_player_count();
    let slots = smashbros_data.slot_count();
    let mut ok = true;
    if slots > 0 {
        ok = n < 0 || (n as usize) <= slots;
    } else {
        let mut p: i32 = 0;
        while p < n
            invariant
                n == old(smashbros_data).player_count(),
                slots == 0,
                n <= numbers@.len(),
                0 <= p,
                n >= 0 ==> p <= n,
                n < 0 ==> p == 0,
                ok == (forall|q: int| 0 <= q < p ==> #[trigger] numbers@[q] < 10),
            decreases n - p,
        {
            if numbers[p as usize] >= 10 {
                ok = false;
            }
            p = p + 1;
        }
    }
    if ok {
        captured_power_from_readings(smashbros_data, &numbers)
    } else {
        smashbros_data.all_decided_power()
    }
}

/// A count shown on the result screen (KOs, falls or self-destructs): the
/// digits of the recognised text read as a number, 0 when they do not parse.
pub open spec fn result_count_reading(text: Seq<char>) -> i32 {
    match parsed_i32(regex_without_matches(non_digits_pattern(), text)) {
        Some(v) => v,
        None => 0i32,
    }
}

/// The result-screen counts of every player, read from the recognised
/// texts of their KO, fall and self-destruct fields.
pub open spec fn result_counts(texts: Seq<(String, String, String)>) -> Seq<(i32, i32, i32)> {
    texts.map_values(
        |t: (String, String, String)|
            (result_count_reading(t.0@), result_count_reading(t.1@), result_count_reading(t.2@)),
    )
}

/// The falls of a player's counts `(kos, falls, self_destructs)` as a
/// loss: minus their absolute value.
pub open spec fn fall_loss(c: (i32, i32, i32)) -> int {
    if c.1 < 0 {
        c.1 as int
    } else {
        -(c.1 as int)
    }
}

/// The stocks a player lost: falls and self-destructs.
pub open spec fn stocks_lost(c: (i32, i32, i32)) -> int {
    -fall_loss(c) + c.2
}

/// The stock a player with stock limit `max` is left with.
pub open spec fn stock_left(max: int, c: (i32, i32, i32)) -> int {
    max + fall_loss(c) - c.2
}

/// The arithmetic on a player's counts stays within `i32`.
pub open spec fn counts_fit(max: int, c: (i32, i32, i32)) -> bool {
    &&& c.1 != i32::MIN
    &&& i32::MIN <= max + fall_loss(c)
    &&& i32::MIN <= stock_left(max, c) <= i32::MAX
    &&& stocks_lost(c) <= i32::MAX
}

/// The counts of every player fit the arithmetic.
pub open spec fn all_counts_fit(d: SmashbrosData, counts: Seq<(i32, i32, i32)>) -> bool {
    forall|p: int| 0 <= p < d.player_count() ==> counts_fit(d.max_stock_of(p) as int, #[trigger] counts[p])
}

/// In a one-on-one battle the two players' counts agree: the KOs of each
/// are the stocks the other lost.
pub open spec fn counts_agree(counts: Seq<(i32, i32, i32)>) -> bool {
    &&& counts[0].0 == stocks_lost(counts[1])
    &&& counts[1].0 == stocks_lost(counts[0])
}

/// The effect of counting, for every player, the stock they are left with
/// by their result counts.
pub open spec fn result_stocks_guessed(before: SmashbrosData, after: SmashbrosData, counts: Seq<(i32, i32, i32)>) -> bool {
    let b = before.stocks();
    let a = after.stocks();
    &&& after.wf()
    &&& SmashbrosData::others_same(before, after, 4)
    &&& a.len() == b.len()
    &&& forall|q: int|
        0 <= q < b.len() ==> if q < before.player_count() {
            SmashbrosData::stock_entry_guessed(
                before.rule(),
                b[q],
                #[trigger] a[q],
                stock_left(before.max_stock_of(q) as int, counts[q]) as i32,
            )
        } else {
            a[q] == b[q]
        }
}

/// One way through the result stocks: `mid` after counting every player's
/// stock; then, in a one-on-one battle whose counts agree, both stocks are
/// fixed to what the counts leave.
pub open spec fn result_stock_steps(
    before: SmashbrosData,
    mid: SmashbrosData,
    after: SmashbrosData,
    counts: Seq<(i32, i32, i32)>,
) -> bool {
    &&& result_stocks_guessed(before, mid, counts)
    &&& if before.player_count() == 2 && counts_agree(counts) {
        let m = mid.stocks();
        let a = after.stocks();
        &&& after.wf()
        &&& SmashbrosData::others_same(mid, after, 4)
        &&& list_set(m, m.update(0, a[0]), 0, stock_left(before.max_stock_of(0) as int, counts[0]) as i32)
        &&& list_set(m.update(0, a[0]), a, 1, stock_left(before.max_stock_of(1) as int, counts[1]) as i32)
    } else {
        after == mid
    }
}

/// In a one-on-one battle whose result counts agree (the KOs of each
/// player are the falls and self-destructs of the other), both final
/// stocks are fixed: each player's stock is decided at the stock limit
/// less the stocks the player lost, whatever the counts are. All stocks
/// then count as decided exactly when both players are left with one.
pub proof fn lemma_agreeing_counts_fix_stocks(
    before: SmashbrosData,
    mid: SmashbrosData,
    after: SmashbrosData,
    counts: Seq<(i32, i32, i32)>,
)
    requires
        result_stock_steps(before, mid, after, counts),
        before.player_count() == 2,
        counts[0].0 == stocks_lost(counts[1]),
        counts[1].0 == stocks_lost(counts[0]),
        counts_fit(before.max_stock_of(0) as int, counts[0]),
        counts_fit(before.max_stock_of(1) as int, counts[1]),
    ensures
        after.stocks()[0].decided(),
        after.stocks()[1].decided(),
        after.stocks()[0].value() == before.max_stock_of(0) - stocks_lost(counts[0]),
        after.stocks()[1].value() == before.max_stock_of(1) - stocks_lost(counts[1]),
        after.all_decided_stock_spec() == (after.stocks()[0].value() == 1 && after.stocks()[1].value() == 1),
{
    let m = mid.stocks();
    let a = after.stocks();
    assert(list_set(m, m.update(0, a[0]), 0, stock_left(before.max_stock_of(0) as int, counts[0]) as i32));
    assert(list_set(m.update(0, a[0]), a, 1, stock_left(before.max_stock_of(1) as int, counts[1]) as i32));
    assert(a[0] == m.update(0, a[0])[0]);
    assert(after.player_count() == 2);
    if after.all_decided_stock_spec() {
        assert(after.decided_stock(0));
        assert(after.decided_stock(1));
    }
}

/// Counts the final stocks shown on the result screen: `counts[p]` holds
/// the KOs, falls and self-destructs of player `p`. Nothing is done unless
/// the stock screen was `matched` and every stock limit is known. Returns
/// whether every stock is decided afterwards.
pub fn capture_result_stock_from_counts(
    smashbros_data: &mut SmashbrosData,
    matched: bool,
    counts: &Vec<(i32, i32, i32)>,
) -> (r: bool)
    requires
        old(smashbros_data).wf(),
        old(smashbros_data).player_count() <= 0 || old(smashbros_data).player_count() <= old(
            smashbros_data,
        ).slots(),
        old(smashbros_data).player_count() <= counts@.len(),
        matched && old(smashbros_data).all_decided_max_stock_spec() ==> all_counts_fit(
            *old(smashbros_data),
            counts@,
        ),
    ensures
        if !matched || !old(smashbros_data).all_decided_max_stock_spec() {
            *final(smashbros_data) == *old(smashbros_data) && !r
        } else {
            &&& exists|mid: SmashbrosData| #[trigger]
                result_stock_steps(*old(smashbros_data), mid, *final(smashbros_data), counts@)
            &&& r == final(smashbros_data).all_decided_stock_spec()
        },
{
    if !smashbros_data.all_decided_max_stock() {
        return false;
    }
    if !matched {
        return false;
    }
    let n = smashbros_data.get_player_count();
    let mut p: i32 = 0;
    while p < n
        invariant
            smashbros_data.wf(),
            n == old(smashbros_data).player_count(),
            n <= 0 || n <= old(smashbros_data).slots(),
            n <= counts@.len(),
            all_counts_fit(*old(smashbros_data), counts@),
            0 <= p,
            n >= 0 ==> p <= n,
            n < 0 ==> p == 0,
            smashbros_data.slots() == old(smashbros_data).slots(),
            ({
                let b = old(smashbros_data).stocks();
                let a = smashbros_data.stocks();
                &&& SmashbrosData::others_same(*old(smashbros_data), *smashbros_data, 4)
                &&& a.len() == b.len()
                &&& forall|q: int|
                    0 <= q < b.len() ==> if q < p {
                        SmashbrosData::stock_entry_guessed(
                            old(smashbros_data).rule(),
                            b[q],
                            #[trigger] a[q],
                            stock_left(old(smashbros_data).max_stock_of(q) as int, counts@[q]) as i32,
                        )
                    } else {
                        a[q] == b[q]
                    }
            }),
        decreases n - p,
    {
        let ghost before = *smashbros_data;
        let c = counts[p as usize];
        proof {
            assert(counts_fit(old(smashbros_data).max_stock_of(p as int) as int, counts@[p as int]));
            assert(before.max_stock_of(p as int) == old(smashbros_data).max_stock_of(p as int));
        }
        let max = smashbros_data.get_max_stock(p);
        let fall: i32 = if c.1 < 0 { c.1 } else { -c.1 };
        let number = max + fall - c.2;
        smashbros_data.guess_stock(p, number);
        proof {
            let b = old(smashbros_data).stocks();
            let a = smashbros_data.stocks();
            assert forall|q: int| 0 <= q < b.len() && q != p implies a[q] == before.stocks()[q] by {}
        }
        p = p + 1;
    }
    let ghost mid = *smashbros_data;
    proof {
        assert(result_stocks_guessed(*old(smashbros_data), mid, counts@));
    }
    if n == 2 {
        let c0 = counts[0];
        let c1 = counts[1];
        proof {
            assert(counts_fit(old(smashbros_data).max_stock_of(0) as int, counts@[0]));
            assert(counts_fit(old(smashbros_data).max_stock_of(1) as int, counts@[1]));
        }
        let fall0: i32 = if c0.1 < 0 { c0.1 } else { -c0.1 };
        let fall1: i32 = if c1.1 < 0 { c1.1 } else { -c1.1 };
        let lost0: i32 = c0.2 - fall0;
        let lost1: i32 = c1.2 - fall1;
        if c0.0 == lost1 && c1.0 == lost0 {
            let max0 = smashbros_data.get_max_stock(0);
            smashbros_data.set_stock(0, max0 - lost0);
            let ghost m2 = *smashbros_data;
            let max1 = smashbros_data.get_max_stock(1);
            smashbros_data.set_stock(1, max1 - lost1);
            proof {
                assert(m2.stocks() == mid.stocks().update(0, smashbros_data.stocks()[0]));
                assert(result_stock_steps(*old(smashbros_data), mid, *smashbros_data, counts@));
            }
        } else {
            proof {
                assert(result_stock_steps(*old(smashbros_data), mid, *smashbros_data, counts@));
            }
        }
    } else {
        proof {
            assert(result_stock_steps(*old(smashbros_data), mid, *smashbros_data, counts@));
        }
    }
    smashbros_data.all_decided_stock()
}

/// Reads one result-screen count from its recognised text.
fn result_count_of(text: &str) -> (r: i32)
    ensures
        r == result_count_reading(text@),
{
    let pattern = "[^\\d]+";
    proof {
        assert(pattern@ == non_digits_pattern());
    }
    let digits = delete_matches(pattern, text);
    match parse_i32(digits.as_str()) {
        Some(v) => v,
        None => 0,
    }
}

/// Whether the counts of player `p` fit the arithmetic.
fn counts_fit_at(d: &SmashbrosData, p: i32, c: (i32, i32, i32)) -> (b: bool)
    ensures
        b == counts_fit(d.max_stock_of(p as int) as int, c),
{
    if c.1 == i32::MIN {
        return false;
    }
    let max = d.get_max_stock(p) as i64;
    let fall: i64 = if c.1 < 0 { c.1 as i64 } else { -(c.1 as i64) };
    let left = max + fall - c.2 as i64;
    let lost = c.2 as i64 - fall;
    i32::MIN as i64 <= max + fall && i32::MIN as i64 <= left && left <= i32::MAX as i64 && lost <= i32::MAX as i64
}

/// Counts the final stocks from the texts recognised on the result screen:
/// `texts[p]` holds player `p`'s KO, fall and self-destruct fields. When
/// some count is too large for the arithmetic, the record is left
/// unchanged. Returns whether every stock is decided afterwards (false
/// when nothing was done because the screen was not `matched` or a stock
/// limit is unknown).
pub fn capture_result_stock(
    smashbros_data: &mut SmashbrosData,
    matched: bool,
    texts: &Vec<(String, String, String)>,
) -> (r: bool)
    requires
        old(smashbros_data).wf(),
        old(smashbros_data).player_count() <= 0 || old(smashbros_data).player_count() <= old(
            smashbros_data,
        ).slots(),
        old(smashbros_data).player_count() <= texts@.len(),
    ensures
        ({
            let counts = result_counts(texts@);
            if !matched || !old(smashbros_data).all_decided_max_stock_spec() {
                *final(smashbros_data) == *old(smashbros_data) && !r
            } else if all_counts_fit(*old(smashbros_data), counts) {
                &&& exists|mid: SmashbrosData| #[trigger]
                    result_stock_steps(*old(smashbros_data), mid, *final(smashbros_data), counts)
                &&& r == final(smashbros_data).all_decided_stock_spec()
            } else {
                &&& *final(smashbros_data) == *old(smashbros_data)
                &&& r == old(smashbros_data).all_decided_stock_spec()
            }
        }),
{
    let ghost spec_counts = result_counts(texts@);
    let mut counts: Vec<(i32, i32, i32)> = Vec::new();
    let mut i: usize = 0;
    while i < texts.len()
        invariant
            spec_counts == result_counts(texts@),
            i <= texts@.len(),
            counts@.len() == i,
            forall|k: int| 0 <= k < i ==> #[trigger] counts@[k] == spec_counts[k],
        decreases texts@.len() - i,
    {
        let t = &texts[i];
        let c = (result_count_of(t.0.as_str()), result_count_of(t.1.as_str()), result_count_of(t.2.as_str()));
        counts.push(c);
        i = i + 1;
    }
    proof {
        assert(counts@ =~= spec_counts);
    }
    if !matched || !smashbros_data.all_decided_max_stock() {
        return capture_result_stock_from_counts(smashbros_data, matched, &counts);
    }
    let n = smashbros_data.get_player_count();
    let mut fit = true;
    let mut p: i32 = 0;
    while p < n
        invariant
            n == smashbros_data.player_count(),
            n <= counts@.len(),
            0 <= p,
            n >= 0 ==> p <= n,
            n < 0 ==> p == 0,
            fit == (forall|q: int| 0 <= q < p ==> counts_fit(smashbros_data.max_stock_of(q) as int, #[trigger] counts@[q])),
        decreases n - p,
    {
        if !counts_fit_at(smashbros_data, p, counts[p as usize]) {
            fit = false;
        }
        p = p + 1;
    }
    if fit {
        capture_result_stock_from_counts(smashbros_data, matched, &counts)
    } else {
        smashbros_data.all_decided_stock()
    }
}

/// The placings found in one player's area, in the order they are counted:
/// `(p, k + 1)` for every `k` below `k_end` where `row[k]` is set.
pub open spec fn row_events(row: Seq<bool>, p: i32, k_end: int) -> Seq<(i32, i32)>
    decreases k_end,
{
    if k_end <= 0 {
        Seq::empty()
    } else {
        row_events(row, p, k_end - 1) + if row[k_end - 1] {
            seq![(p, k_end as i32)]
        } else {
            Seq::empty()
        }
    }
}

/// The placings found on the result screen for the first `players`
/// players, each area checked for the `n` placings, in the order they are
/// counted.
pub open spec fn order_events(found: Seq<Vec<bool>>, n: int, players: int) -> Seq<(i32, i32)>
    decreases players,
{
    if players <= 0 {
        Seq::empty()
    } else {
        order_events(found, n, players - 1) + row_events(found[players - 1]@, (players - 1) as i32, n)
    }
}

/// `states` goes from one record to the next by counting each event as a
/// placing with `guess_order`.
pub open spec fn order_chain(states: Seq<SmashbrosData>, events: Seq<(i32, i32)>) -> bool {
    &&& states.len() == events.len() + 1
    &&& forall|i: int|
        0 <= i < events.len() ==> SmashbrosData::order_guessed(
            states[i],
            states[i + 1],
            (#[trigger] events[i]).0,
            events[i].1,
        )
}

/// Counts the placings found on the result screen: `found[p][k]` tells
/// whether the mark of placing `k + 1` was found in player `p`'s area.
/// Returns whether every placing is decided afterwards.
pub fn captured_order(smashbros_data: &mut SmashbrosData, found: &Vec<Vec<bool>>) -> (r: bool)
    requires
        old(smashbros_data).wf(),
        old(smashbros_data).player_count() <= old(smashbros_data).slots(),
        old(smashbros_data).player_count() <= found@.len(),
        forall|p: int|
            0 <= p < old(smashbros_data).player_count() ==> old(smashbros_data).player_count()
                <= (#[trigger] found@[p])@.len(),
    ensures
        exists|states: Seq<SmashbrosData>|
            #[trigger] order_chain(
                states,
                order_events(found@, old(smashbros_data).player_count(), old(smashbros_data).player_count()),
            ) && states[0] == *old(smashbros_data) && states.last() == *final(smashbros_data),
        r == final(smashbros_data).all_decided_order_spec(),
{
    let n = smashbros_data.get_player_count();
    let ghost mut states: Seq<SmashbrosData> = seq![*smashbros_data];
    let mut p: i32 = 0;
    while p < n
        invariant
            smashbros_data.wf(),
            n == old(smashbros_data).player_count(),
            n <= found@.len(),
            forall|q: int| 0 <= q < n ==> n <= (#[trigger] found@[q])@.len(),
            header_same(*old(smashbros_data), *smashbros_data),
            smashbros_data.slots() == old(smashbros_data).slots(),
            n <= smashbros_data.slots(),
            0 <= p,
            n >= 0 ==> p <= n,
            n < 0 ==> p == 0,
            order_chain(states, order_events(found@, n as int, p as int)),
            states[0] == *old(smashbros_data),
            states.last() == *smashbros_data,
        decreases n - p,
    {
        let ghost row = found@[p as int]@;
        let mut k: i32 = 0;
        while k < n
            invariant
                smashbros_data.wf(),
                n == old(smashbros_data).player_count(),
                0 <= p < n,
                n <= found@.len(),
                row == found@[p as int]@,
                n <= row.len(),
                header_same(*old(smashbros_data), *smashbros_data),
                smashbros_data.slots() == old(smashbros_data).slots(),
                n <= smashbros_data.slots(),
                0 <= k <= n,
                order_chain(states, order_events(found@, n as int, p as int) + row_events(row, p, k as int)),
                states[0] == *old(smashbros_data),
                states.last() == *smashbros_data,
            decreases n - k,
        {
            let ghost events = order_events(found@, n as int, p as int) + row_events(row, p, k as int);
            if found[p as usize][k as usize] {
                let ghost prev = *smashbros_data;
                smashbros_data.guess_order(p, k + 1);
                proof {
                    let new_events = order_events(found@, n as int, p as int) + row_events(row, p, k + 1);
                    assert(new_events =~= events.push((p, (k + 1) as i32)));
                    let new_states = states.push(*smashbros_data);
                    assert forall|i: int| 0 <= i < new_events.len() implies SmashbrosData::order_guessed(
                        new_states[i],
                        new_states[i + 1],
                        (#[trigger] new_events[i]).0,
                        new_events[i].1,
                    ) by {
                        if i < events.len() {
                            assert(new_events[i] == events[i]);
                            assert(new_states[i] == states[i]);
                            assert(new_states[i + 1] == states[i + 1]);
                        } else {
                            assert(new_states[i] == prev);
                        }
                    }
                    states = new_states;
                }
            } else {
                proof {
                    assert(order_events(found@, n as int, p as int) + row_events(row, p, k + 1) =~= events);
                }
            }
            k = k + 1;
        }
        proof {
            assert(order_events(found@, n as int, p + 1) == order_events(found@, n as int, p as int) + row_events(row, p, n as int));
        }
        p = p + 1;
    }
    proof {
        if n < 0 {
            assert(order_events(found@, n as int, n as int) == order_events(found@, n as int, 0));
        }
    }
    smashbros_data.all_decided_order()
}

/// A word, as a character's name is read.
pub open spec fn word_pattern() -> Seq<char> {
    "\\s*(\\w+)\\s*"@
}

/// The character name read from the text recognised in a player's name
/// area: the first word of it, if any.
pub fn character_name_reading(text: &str) -> (r: Option<String>)
    ensures
        opt_view(r) == regex_first_group(word_pattern(), text@),
{
    let pattern = "\\s*(\\w+)\\s*";
    proof {
        assert(pattern@ == word_pattern());
    }
    captured_convert_number(text, pattern)
}

/// The effect of one name reading `name` on an undecided player's
/// character: a name of `list` is taken as decided; otherwise `best`, the
/// most similar name of the list, is counted unless it is "unknown".
pub open spec fn chara_entry_guessed(
    g: ValueGuesser<String>,
    a: ValueGuesser<String>,
    name: Seq<char>,
    list: Seq<String>,
    best: Option<Seq<char>>,
) -> bool {
    if names_contain(list, name) {
        set_effect(g, a, name)
    } else if best is Some && best.unwrap() != unknown_name() {
        guess_effect(g, a, best.unwrap())
    } else {
        a == g
    }
}

/// The effect of the name readings `names` (with the most similar names
/// `best`) on every player whose character is not decided.
pub open spec fn charas_read(
    before: SmashbrosData,
    after: SmashbrosData,
    names: Seq<Option<String>>,
    list: Seq<String>,
    best: Seq<Option<String>>,
) -> bool {
    let b = before.charas();
    let a = after.charas();
    &&& after.wf()
    &&& SmashbrosData::others_same(before, after, 2)
    &&& a.len() == b.len()
    &&& forall|q: int|
        0 <= q < b.len() ==> if q < before.player_count() && !before.decided_character(q) && names[q] is Some {
            chara_entry_guessed(b[q], #[trigger] a[q], names[q].unwrap()@, list, opt_view(best[q]))
        } else {
            a[q] == b[q]
        }
}

/// Counts the character names read on the versus screen: `names[p]` is
/// the name read for player `p` (see `character_name_reading`), and
/// `best_matches[p]` the name of `character_list` most similar to it.
/// Returns true, changing nothing, when every character is decided
/// already; false otherwise.
pub fn captured_character_name(
    smashbros_data: &mut SmashbrosData,
    names: &Vec<Option<String>>,
    character_list: &Vec<String>,
    best_matches: &Vec<Option<String>>,
) -> (r: bool)
    requires
        old(smashbros_data).wf(),
        old(smashbros_data).player_count() <= 0 || old(smashbros_data).player_count() <= old(
            smashbros_data,
        ).slots(),
        old(smashbros_data).player_count() <= names@.len(),
        old(smashbros_data).player_count() <= best_matches@.len(),
    ensures
        if old(smashbros_data).all_decided_character_spec() {
            *final(smashbros_data) == *old(smashbros_data) && r
        } else {
            charas_read(*old(smashbros_data), *final(smashbros_data), names@, character_list@, best_matches@) && !r
        },
{
    if smashbros_data.all_decided_character_name() {
        return true;
    }
    let n = smashbros_data.get_player_count();
    let mut skip_count: i32 = 0;
    let mut p: i32 = 0;
    while p < n
        invariant
            smashbros_data.wf(),
            n == old(smashbros_data).player_count(),
            n <= 0 || n <= old(smashbros_data).slots(),
            n <= names@.len(),
            n <= best_matches@.len(),
            !old(smashbros_data).all_decided_character_spec(),
            0 <= p,
            n >= 0 ==> p <= n,
            n < 0 ==> p == 0,
            0 <= skip_count <= p,
            skip_count == p <==> forall|q: int| 0 <= q < p ==> #[trigger] old(smashbros_data).decided_character(q),
            smashbros_data.slots() == old(smashbros_data).slots(),
            ({
                let b = old(smashbros_data).charas();
                let a = smashbros_data.charas();
                &&& SmashbrosData::others_same(*old(smashbros_data), *smashbros_data, 2)
                &&& a.len() == b.len()
                &&& forall|q: int|
                    0 <= q < b.len() ==> if q < p && !old(smashbros_data).decided_character(q) && names@[q] is Some {
                        chara_entry_guessed(
                            b[q],
                            #[trigger] a[q],
                            names@[q].unwrap()@,
                            character_list@,
                            opt_view(best_matches@[q]),
                        )
                    } else {
                        a[q] == b[q]
                    }
            }),
        decreases n - p,
    {
        let ghost before = *smashbros_data;
        proof {
            assert(before.charas()[p as int] == old(smashbros_data).charas()[p as int]);
            assert(before.decided_character(p as int) == old(smashbros_data).decided_character(p as int));
        }
        if smashbros_data.is_decided_character_name(p) {
            skip_count = skip_count + 1;
        } else {
            match &names[p as usize] {
                Some(name) => {
                    let best: Option<String> = match &best_matches[p as usize] {
                        Some(b) => Some(b.clone()),
                        None => None,
                    };
                    smashbros_data.guess_character_name(p, name.clone(), character_list, best);
                    proof {
                        let b = old(smashbros_data).charas();
                        let a = smashbros_data.charas();
                        assert forall|q: int| 0 <= q < b.len() && q != p implies a[q] == before.charas()[q] by {}
                    }
                },
                None => {},
            }
        }
        p = p + 1;
    }
    proof {
        if skip_count == n {
            assert(old(smashbros_data).all_decided_character_spec());
        }
    }
    n == skip_count
}

/// The rule the versus screen shows: the first of stock, time and
/// stamina whose mark was found, Unknown when none was.
pub open spec fn rule_found(stock_matched: bool, time_matched: bool, stamina_matched: bool) -> BattleRule {
    if stock_matched {
        BattleRule::Stock
    } else if time_matched {
        BattleRule::Time
    } else if stamina_matched {
        BattleRule::Stamina
    } else {
        BattleRule::Unknown
    }
}

/// The rule read is the one whose mark was found: the stock mark gives a
/// stock battle; otherwise the time mark a time battle; otherwise the
/// stamina mark a stamina battle; with no mark the rule stays unknown. So
/// each rule is read exactly when its mark, and no mark before it, was
/// found.
pub proof fn lemma_rule_from_marks(stock_matched: bool, time_matched: bool, stamina_matched: bool)
    ensures
        (rule_found(stock_matched, time_matched, stamina_matched) == BattleRule::Stock) == stock_matched,
        (rule_found(stock_matched, time_matched, stamina_matched) == BattleRule::Time) == (!stock_matched
            && time_matched),
        (rule_found(stock_matched, time_matched, stamina_matched) == BattleRule::Stamina) == (!stock_matched
            && !time_matched && stamina_matched),
        (rule_found(stock_matched, time_matched, stamina_matched) == BattleRule::Unknown) == (!stock_matched
            && !time_matched && !stamina_matched),
{
}

/// Takes the rule shown on the versus screen, unless the rule is known
/// already: `stock_matched`, `time_matched` and `stamina_matched` tell
/// which rule marks were found.
pub fn captured_rule(smashbros_data: &mut SmashbrosData, stock_matched: bool, time_matched: bool, stamina_matched: bool)
    ensures
        final(smashbros_data).rule() == if old(smashbros_data).rule() != BattleRule::Unknown {
            old(smashbros_data).rule()
        } else {
            rule_found(stock_matched, time_matched, stamina_matched)
        },
        final(smashbros_data).id() == old(smashbros_data).id(),
        final(smashbros_data).saved_time() == old(smashbros_data).saved_time(),
        final(smashbros_data).start_time() == old(smashbros_data).start_time(),
        final(smashbros_data).end_time() == old(smashbros_data).end_time(),
        final(smashbros_data).player_count() == old(smashbros_data).player_count(),
        final(smashbros_data).max_time() == old(smashbros_data).max_time(),
        lists_same(*old(smashbros_data), *final(smashbros_data)),
{
    if smashbros_data.is_decided_rule() {
        return;
    }
    if stock_matched {
        smashbros_data.set_rule(BattleRule::Stock);
    } else if time_matched {
        smashbros_data.set_rule(BattleRule::Time);
    } else if stamina_matched {
        smashbros_data.set_rule(BattleRule::Stamina);
    }
}

/// The areas of the versus screen where a rule's limits are shown.
#[derive(Clone, Copy, Debug, PartialEq, Eq, Structural)]
pub struct RuleAreas {
    /// The minutes of the time limit.
    pub time: Option<Rect>,
    /// The seconds of the time limit.
    pub sec_time: Option<Rect>,
    /// The stock limit.
    pub stock: Option<Rect>,
    /// The hit-point limit.
    pub hp: Option<Rect>,
}

/// Where each rule shows its limits: a time battle its minutes and
/// seconds, a stock battle its minutes and stocks, a stamina battle its
/// minutes, stocks and hit points; nothing is read for an unknown rule.
pub open spec fn rule_areas_spec(rule: BattleRule) -> RuleAreas {
    match rule {
        BattleRule::Time => RuleAreas {
            time: Some(Rect { x: 313, y: 332, width: 10, height: 20 }),
            sec_time: Some(Rect { x: 325, y: 332, width: 18, height: 20 }),
            stock: None,
            hp: None,
        },
        BattleRule::Stock => RuleAreas {
            time: Some(Rect { x: 274, y: 332, width: 11, height: 20 }),
            sec_time: None,
            stock: Some(Rect { x: 358, y: 332, width: 11, height: 20 }),
            hp: None,
        },
        BattleRule::Stamina => RuleAreas {
            time: Some(Rect { x: 241, y: 332, width: 11, height: 20 }),
            sec_time: None,
            stock: Some(Rect { x: 324, y: 332, width: 11, height: 20 }),
            hp: Some(Rect { x: 380, y: 332, width: 18, height: 20 }),
        },
        BattleRule::Unknown => RuleAreas { time: None, sec_time: None, stock: None, hp: None },
    }
}

/// The areas of the versus screen read for `rule`.
pub fn rule_areas(rule: BattleRule) -> (r: RuleAreas)
    ensures
        r == rule_areas_spec(rule),
{
    match rule {
        BattleRule::Time => RuleAreas {
            time: Some(Rect { x: 313, y: 332, width: 10, height: 20 }),
            sec_time: Some(Rect { x: 325, y: 332, width: 18, height: 20 }),
            stock: None,
            hp: None,
        },
        BattleRule::Stock => RuleAreas {
            time: Some(Rect { x: 274, y: 332, width: 11, height: 20 }),
            sec_time: None,
            stock: Some(Rect { x: 358, y: 332, width: 11, height: 20 }),
            hp: None,
        },
        BattleRule::Stamina => RuleAreas {
            time: Some(Rect { x: 241, y: 332, width: 11, height: 20 }),
            sec_time: None,
            stock: Some(Rect { x: 324, y: 332, width: 11, height: 20 }),
            hp: Some(Rect { x: 380, y: 332, width: 18, height: 20 }),
        },
        BattleRule::Unknown => RuleAreas { time: None, sec_time: None, stock: None, hp: None },
    }
}

/// The texts recognised in a rule's areas (None for an area the rule does
/// not have).
#[derive(Debug)]
pub struct RuleTexts {
    pub time: Option<String>,
    pub sec_time: Option<String>,
    pub stock: Option<String>,
    pub hp: Option<String>,
}

/// One way through the rule limits: `d1` after the time limit, `d2` after
/// the stock limit, `after` after the hit-point limit, each read only
/// where its text is there.
pub open spec fn rule_clauses_steps(
    before: SmashbrosData,
    d1: SmashbrosData,
    d2: SmashbrosData,
    after: SmashbrosData,
    time: Option<Seq<char>>,
    sec_time: Option<Seq<char>>,
    stock: Option<Seq<char>>,
    hp: Option<Seq<char>>,
) -> bool {
    &&& if sec_time is Some {
        time_with_sec_read(before, d1, time.unwrap(), sec_time.unwrap())
    } else if time is Some {
        time_read(before, d1, time.unwrap())
    } else {
        d1 == before
    }
    &&& if stock is Some {
        stock_limit_read(d1, d2, stock.unwrap())
    } else {
        d2 == d1
    }
    &&& if hp is Some {
        hp_limit_read(d2, after, hp.unwrap())
    } else {
        after == d2
    }
}

/// Counts the limits read on the versus screen: the time limit (with its
/// seconds where they are shown), then the stock limit, then the
/// hit-point limit, each where its text was read.
pub fn captured_rule_clauses(smashbros_data: &mut SmashbrosData, texts: &RuleTexts)
    requires
        old(smashbros_data).wf(),
        texts.sec_time is Some ==> texts.time is Some,
    ensures
        exists|d1: SmashbrosData, d2: SmashbrosData| #[trigger]
            rule_clauses_steps(
                *old(smashbros_data),
                d1,
                d2,
                *final(smashbros_data),
                opt_view(texts.time),
                opt_view(texts.sec_time),
                opt_view(texts.stock),
                opt_view(texts.hp),
            ),
{
    match &texts.sec_time {
        Some(sec) => {
            match &texts.time {
                Some(t) => captured_time_with_sec(smashbros_data, t.as_str(), sec.as_str()),
                None => {},
            }
        },
        None => {
            match &texts.time {
                Some(t) => captured_time(smashbros_data, t.as_str()),
                None => {},
            }
        },
    }
    let ghost d1 = *smashbros_data;
    proof {
        assert(lists_same(*old(smashbros_data), d1));
    }
    match &texts.stock {
        Some(t) => captured_stock(smashbros_data, t.as_str()),
        None => {},
    }
    let ghost d2 = *smashbros_data;
    match &texts.hp {
        Some(t) => captured_stamina(smashbros_data, t.as_str()),
        None => {},
    }
    proof {
        assert(rule_clauses_steps(
            *old(smashbros_data),
            d1,
            d2,
            *smashbros_data,
            opt_view(texts.time),
            opt_view(texts.sec_time),
            opt_view(texts.stock),
            opt_view(texts.hp),
        ));
    }
}

} // verus!
