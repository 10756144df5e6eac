use noderunner::buttons::{btn_index, button_of_upper, parse_button_list, ActionMap, Btn};
use noderunner::config::GameConfig;

#[test]
fn names_are_case_insensitive() {
    assert_eq!(Btn::from_name("start"), Some(Btn::Start));
    assert_eq!(Btn::from_name("lb"), Some(Btn::L1));
    assert_eq!(Btn::from_name("RightTrigger2"), Some(Btn::R2));
    assert_eq!(Btn::from_name("back"), Some(Btn::Select));
    assert_eq!(Btn::from_name("south"), Some(Btn::A));
    assert_eq!(Btn::from_name("Z"), None);
    assert_eq!(button_of_upper("NORTH"), Some(Btn::Y));
    assert_eq!(button_of_upper("north"), None);
}

#[test]
fn button_indices_are_distinct() {
    let all = [Btn::A, Btn::B, Btn::X, Btn::Y, Btn::L1, Btn::R1, Btn::L2, Btn::R2, Btn::Start, Btn::Select];
    for (i, b) in all.iter().enumerate() {
        assert_eq!(btn_index(*b), i);
    }
}

#[test]
fn action_map_from_config() {
    let mut m = ActionMap::defaults();
    assert_eq!(m.hack_left, vec![Btn::B, Btn::Y, Btn::L1]);
    let mut cfg = GameConfig::defaults().gamepad;
    cfg.confirm = vec!["a".to_string(), "nope".to_string()];
    cfg.cancel = vec!["nope".to_string()];
    m.load_button_config(&cfg);
    assert_eq!(m.confirm, vec![Btn::A]);
    assert_eq!(m.cancel, vec![Btn::Select]);
    assert_eq!(m.hack_right, vec![Btn::A, Btn::X, Btn::R1]);
    assert_eq!(parse_button_list(&vec!["x".to_string(), "rb".to_string()]), vec![Btn::X, Btn::R1]);
}
