use smabrog::data::SmashbrosData;
use smabrog::reading::capture_result_stock;

fn counts(ko: &str, fall: &str, sd: &str) -> (String, String, String) {
    (ko.to_string(), fall.to_string(), sd.to_string())
}

#[test]
fn test_result_stock() {
    let mut data = SmashbrosData::new();
    data.initialize_battle(2, None);
    let list = vec!["MARIO".to_string(), "LUIGI".to_string()];
    data.guess_character_name(0, "MARIO".to_string(), &list, None);
    data.set_max_stock(0, 3);
    data.set_max_stock(1, 3);

    // the counts shown on the result screen: KOs, falls, self-destructs
    let texts = vec![counts("3", "2", "0"), counts("2", "3", "0")];
    capture_result_stock(&mut data, true, &texts);

    assert_eq!(data.get_stock(0), 1);
    assert_eq!(data.get_stock(1), 0);
}
