use shieldtank::iid::{parse_iid, parse_iids};
use shieldtank::location::{Location, LocationState};
use shieldtank::plugins::{iid_is, ShieldtankIid};
use shieldtank::text::str_equal;

#[test]
fn iids_parse_as_uuids() {
    assert_eq!(parse_iid("00000000-0000-0000-0000-00000000002a").unwrap(), 42);
    assert_eq!(parse_iid("a2f4a3c05d1e11ef8a9b5f1d1c3b7e21").unwrap(), 0xa2f4a3c0_5d1e_11ef_8a9b_5f1d1c3b7e21);
    assert!(parse_iid("Level_0").is_err());
    assert_eq!(parse_iids(&[]).unwrap(), Vec::<u128>::new());
    assert!(parse_iids(&["00000000-0000-0000-0000-000000000001".to_string(), "x".to_string()]).is_err());
}

#[test]
fn locations_follow_transform_unless_modified() {
    let mut l = Location::from_translation((1, 2));
    l.update_location_state((3, 4));
    assert_eq!(l, Location::from_translation((3, 4)));
    let mut m = Location { state: LocationState::Modified((9, 9)) };
    m.update_location_state((3, 4));
    assert_eq!(m.state, LocationState::Modified((9, 9)));
}

#[test]
fn iid_components_compare_by_value() {
    let a = ShieldtankIid::new(7);
    let b: ShieldtankIid = 7u128.into();
    assert_eq!(a, b);
    assert!(a == 7u128);
    assert!(a != 8u128);
    assert!(iid_is(&a, 7));
    assert_eq!(a.get(), 7);
}

#[test]
fn string_equality() {
    assert!(str_equal("héllo", "héllo"));
    assert!(!str_equal("hello", "hell"));
    assert!(!str_equal("abc", "abd"));
    assert!(str_equal("", ""));
}
