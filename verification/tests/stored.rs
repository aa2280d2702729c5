use smabrog::data::{BattleRule, PlayerGroup, SmashbrosData};
use smabrog::stored::{group_name, read_stored, rule_name, StoredField};

fn time_text(millis: i64) -> String {
    chrono::DateTime::from_timestamp_millis(millis).unwrap().to_rfc3339()
}

fn apply_all(fields: Vec<StoredField>) -> SmashbrosData {
    let mut d = SmashbrosData::new_cleared();
    for f in fields {
        assert!(d.stored_field_fits(&f));
        assert!(d.apply_stored_field(f, 1234));
    }
    d
}

#[test]
fn stored_record_is_read_back() {
    let d = apply_all(vec![
        StoredField::PlayerCount(2),
        StoredField::Id("abc".to_string()),
        StoredField::RuleName("Stock".to_string()),
        StoredField::MaxTime(vec![3, 30]),
        StoredField::MaxStockList(vec![3, 2]),
        StoredField::MaxHpList(vec![-1, -1]),
        StoredField::CharaList(vec!["MARIO".to_string(), "FOX".to_string()]),
        StoredField::GroupList(vec!["Red".to_string(), "Blue".to_string()]),
        StoredField::StockList(vec![1, 0]),
        StoredField::OrderList(vec![1, 2]),
        StoredField::PowerList(vec![1000, 2000]),
    ]);
    assert_eq!(d.get_id(), Some("abc".to_string()));
    assert_eq!(d.get_player_count(), 2);
    assert_eq!(d.get_saved_time(), Some(1234));
    assert_eq!(d.get_rule(), BattleRule::Stock);
    assert_eq!(d.get_max_time(), 210);
    assert_eq!(d.get_max_stock(1), 2);
    assert_eq!(d.get_character(0), "MARIO");
    assert!(d.is_decided_character_name(1));
    assert_eq!(d.get_group(1), PlayerGroup::Blue);
    assert_eq!(d.get_stock(0), 1);
    assert_eq!(d.get_order(1), 2);
    assert_eq!(d.get_power(1), 2000);
}

#[test]
fn player_count_keeps_an_earlier_key() {
    let d = apply_all(vec![StoredField::Id("abc".to_string()), StoredField::PlayerCount(2)]);
    assert_eq!(d.get_id(), Some("abc".to_string()));
    assert_eq!(d.get_player_count(), 2);
}

#[test]
fn player_count_keeps_earlier_times() {
    let d = apply_all(vec![
        StoredField::Id("abc".to_string()),
        StoredField::StartTime("1970-01-01T00:00:00.010Z".to_string()),
        StoredField::EndTime("1970-01-01T09:00:00.020+09:00".to_string()),
        StoredField::PlayerCount(2),
    ]);
    assert_eq!(d.get_start_time(), Some(10));
    assert_eq!(d.get_end_time(), Some(20));
    assert_eq!(d.get_saved_time(), Some(1234));
    let e = apply_all(vec![
        StoredField::PlayerCount(2),
        StoredField::StartTime("1970-01-01T00:00:00.010+00:00".to_string()),
        StoredField::EndTime("1970-01-01T00:00:00.020+00:00".to_string()),
    ]);
    assert_eq!(e.get_start_time(), Some(10));
    assert_eq!(e.get_end_time(), Some(20));
}

#[test]
fn unknown_names_read_as_unknown() {
    let d = apply_all(vec![
        StoredField::PlayerCount(2),
        StoredField::RuleName("Tournament".to_string()),
        StoredField::GroupList(vec!["Purple".to_string()]),
    ]);
    assert_eq!(d.get_rule(), BattleRule::Unknown);
    assert_eq!(d.get_group(0), PlayerGroup::Unknown);
}

#[test]
fn fields_that_do_not_fit() {
    let mut d = SmashbrosData::new_cleared();
    d.apply_stored_field(StoredField::PlayerCount(2), 0);
    assert!(!d.stored_field_fits(&StoredField::CharaList(vec![String::new(); 3])));
    assert!(!d.stored_field_fits(&StoredField::MaxTime(vec![3])));
    assert!(!d.stored_field_fits(&StoredField::MaxTime(vec![-1, 0])));
    assert!(d.stored_field_fits(&StoredField::MaxTime(vec![0, 0])));
}

#[test]
fn stored_values_of_a_record() {
    let mut d = SmashbrosData::new_cleared();
    d.apply_stored_field(StoredField::PlayerCount(2), 0);
    d.set_rule(BattleRule::Time);
    d.set_max_time(150);
    d.set_character(0, "MARIO".to_string());
    d.set_order(0, 1);
    d.start_battle_at(5);
    let v = d.stored_values();
    assert_eq!(v.start_time, Some(5));
    assert_eq!(v.end_time, None);
    assert_eq!(v.player_count, 2);
    assert_eq!(v.rule_name, "Time");
    assert_eq!(v.max_time, vec![2, 30]);
    assert_eq!(v.max_stock_list, vec![-1, -1]);
    assert_eq!(v.chara_list, vec!["MARIO".to_string(), "unknown".to_string()]);
    assert_eq!(v.group_list, vec!["Red".to_string(), "Blue".to_string()]);
    assert_eq!(v.order_list, vec![1, -1]);
    assert_eq!(v.stock_list, vec![-1, -1]);
    let fresh = SmashbrosData::new().stored_values();
    assert_eq!(fresh.max_stock_list, vec![-1]);
    assert_eq!(fresh.max_time, vec![0, 0]);
}

#[test]
fn names_of_rules_and_groups() {
    assert_eq!(rule_name(BattleRule::Stamina), "Stamina");
    assert_eq!(rule_name(BattleRule::Unknown), "Unknown");
    assert_eq!(group_name(PlayerGroup::Yellow), "Yellow");
    assert_eq!(BattleRule::from_name(&rule_name(BattleRule::Stock)), BattleRule::Stock);
    assert_eq!(PlayerGroup::from_name(&group_name(PlayerGroup::Green)), PlayerGroup::Green);
}

#[test]
fn stored_record_reads_back() {
    let mut d = SmashbrosData::new_cleared();
    d.initialize_battle_at(2, 0, None);
    d.set_id(Some("key".to_string()));
    d.set_start_time(Some(100));
    d.set_end_time(Some(200));
    d.set_rule(BattleRule::Stock);
    d.set_max_time(420);
    d.set_character(0, "KIRBY".to_string());
    d.set_character(1, "FOX".to_string());
    d.set_stock(0, 2);
    d.set_order(0, 1);
    d.set_order(1, 2);
    d.set_power(0, 1234567);
    d.set_max_stock(0, 3);
    let v = d.stored_values();
    let mut fields = vec![StoredField::Id("key".to_string())];
    fields.push(StoredField::StartTime(time_text(v.start_time.unwrap())));
    fields.push(StoredField::EndTime(time_text(v.end_time.unwrap())));
    fields.push(StoredField::PlayerCount(v.player_count));
    fields.push(StoredField::RuleName(v.rule_name));
    fields.push(StoredField::MaxTime(v.max_time));
    fields.push(StoredField::MaxStockList(v.max_stock_list));
    fields.push(StoredField::MaxHpList(v.max_hp_list));
    fields.push(StoredField::CharaList(v.chara_list));
    fields.push(StoredField::GroupList(v.group_list));
    fields.push(StoredField::StockList(v.stock_list));
    fields.push(StoredField::OrderList(v.order_list));
    fields.push(StoredField::PowerList(v.power_list));
    let e = read_stored(fields, 1234).unwrap();
    assert_eq!(e.get_id(), Some("key".to_string()));
    assert_eq!(e.get_start_time(), Some(100));
    assert_eq!(e.get_end_time(), Some(200));
    assert_eq!(e.get_player_count(), 2);
    assert_eq!(e.get_rule(), BattleRule::Stock);
    assert_eq!(e.get_max_time(), 420);
    for p in 0..2 {
        assert_eq!(e.get_character(p), d.get_character(p));
        assert_eq!(e.get_group(p), d.get_group(p));
        assert_eq!(e.get_stock(p), d.get_stock(p));
        assert_eq!(e.get_order(p), d.get_order(p));
        assert_eq!(e.get_power(p), d.get_power(p));
        assert_eq!(e.get_max_stock(p), d.get_max_stock(p));
        assert_eq!(e.get_max_hp(p), d.get_max_hp(p));
    }
}

#[test]
fn a_time_that_is_no_time_is_not_read() {
    let mut d = SmashbrosData::new_cleared();
    assert!(!d.apply_stored_field(StoredField::StartTime("yesterday".to_string()), 0));
    assert_eq!(d.get_start_time(), None);
    let fields = vec![StoredField::PlayerCount(2), StoredField::EndTime("12:00".to_string())];
    assert!(read_stored(fields, 0).is_none());
}

#[test]
fn a_list_that_outgrows_the_players_is_not_read() {
    let fields = vec![StoredField::PlayerCount(2), StoredField::StockList(vec![1, 2, 3])];
    assert!(read_stored(fields, 0).is_none());
    let fine = vec![StoredField::PlayerCount(2), StoredField::StockList(vec![1, 2])];
    let d = read_stored(fine, 0).unwrap();
    assert_eq!(d.get_stock(1), 2);
}
