use price_oracle::auth::{
    InstanceStorage, _add_authorized, _add_provider, _get_admin, _has_admin, _is_authorized,
    _is_paused, _is_provider, _remove_authorized, _remove_provider, _set_admin, _set_paused,
};

fn generate(n: u32) -> Vec<u8> {
    format!("C{:055}", n).into_bytes()
}

fn setup() -> (InstanceStorage, Vec<u8>) {
    let mut store = InstanceStorage::new();
    let admin = generate(1);
    let admins = vec![admin.clone()];
    _set_admin(&mut store, &admins);
    (store, admin)
}

#[test]
fn test_is_authorized_true_for_admin() {
    let (store, admin) = setup();
    assert!(_is_authorized(&store, &admin));
}

#[test]
fn test_is_authorized_false_for_non_admin() {
    let (store, _) = setup();
    let other = generate(2);
    assert!(!_is_authorized(&store, &other));
}

#[test]
fn test_is_authorized_false_when_no_admin_set() {
    let store = InstanceStorage::new();
    let random = generate(3);
    assert!(!_is_authorized(&store, &random));
}

#[test]
fn test_get_admin_returns_correct_addresses() {
    let (store, admin) = setup();
    let admins = _get_admin(&store);
    assert_eq!(admins.len(), 1);
    assert_eq!(admins[0], admin);
}

#[test]
fn test_has_admin_true_after_set() {
    let (store, _) = setup();
    assert!(_has_admin(&store));
}

#[test]
fn test_has_admin_false_before_set() {
    let store = InstanceStorage::new();
    assert!(!_has_admin(&store));
}

#[test]
fn test_add_authorized_adds_new_admin() {
    let (mut store, admin1) = setup();
    let admin2 = generate(2);
    assert!(_is_authorized(&store, &admin1));
    assert!(!_is_authorized(&store, &admin2));

    _add_authorized(&mut store, &admin2);

    assert!(_is_authorized(&store, &admin1));
    assert!(_is_authorized(&store, &admin2));

    let admins = _get_admin(&store);
    assert_eq!(admins.len(), 2);
}

#[test]
fn test_add_authorized_prevents_duplicates() {
    let (mut store, admin) = setup();
    assert_eq!(_get_admin(&store).len(), 1);

    _add_authorized(&mut store, &admin);

    assert_eq!(_get_admin(&store).len(), 1);
}

#[test]
fn test_remove_authorized_removes_admin() {
    let (mut store, admin1) = setup();
    let admin2 = generate(2);
    _add_authorized(&mut store, &admin2);
    assert_eq!(_get_admin(&store).len(), 2);

    _remove_authorized(&mut store, &admin1);

    assert!(!_is_authorized(&store, &admin1));
    assert!(_is_authorized(&store, &admin2));
    assert_eq!(_get_admin(&store).len(), 1);
}

#[test]
fn test_remove_authorized_is_safe_for_nonexistent() {
    let (mut store, _) = setup();
    let nonexistent = generate(9);
    _remove_authorized(&mut store, &nonexistent);
    assert_eq!(_get_admin(&store).len(), 1);
}

#[test]
fn test_multiple_admins_are_independent() {
    let (mut store, admin1) = setup();
    let admin2 = generate(2);
    let admin3 = generate(3);
    _add_authorized(&mut store, &admin2);
    _add_authorized(&mut store, &admin3);

    assert!(_is_authorized(&store, &admin1));
    assert!(_is_authorized(&store, &admin2));
    assert!(_is_authorized(&store, &admin3));

    _remove_authorized(&mut store, &admin1);
    assert!(!_is_authorized(&store, &admin1));
    assert!(_is_authorized(&store, &admin2));
    assert!(_is_authorized(&store, &admin3));
}

#[test]
fn test_add_provider_marks_as_whitelisted() {
    let (mut store, _) = setup();
    let provider = generate(5);
    assert!(!_is_provider(&store, &provider));
    _add_provider(&mut store, &provider);
    assert!(_is_provider(&store, &provider));
}

#[test]
fn test_remove_provider_clears_whitelist() {
    let (mut store, _) = setup();
    let provider = generate(5);
    _add_provider(&mut store, &provider);
    assert!(_is_provider(&store, &provider));
    _remove_provider(&mut store, &provider);
    assert!(!_is_provider(&store, &provider));
}

#[test]
fn test_remove_nonexistent_provider_is_safe() {
    let (mut store, _) = setup();
    let provider = generate(5);
    _remove_provider(&mut store, &provider);
    assert!(!_is_provider(&store, &provider));
}

#[test]
fn test_multiple_providers_are_independent() {
    let (mut store, _) = setup();
    let p1 = generate(11);
    let p2 = generate(12);
    let p3 = generate(13);
    _add_provider(&mut store, &p1);
    _add_provider(&mut store, &p2);

    assert!(_is_provider(&store, &p1));
    assert!(_is_provider(&store, &p2));
    assert!(!_is_provider(&store, &p3));

    _remove_provider(&mut store, &p1);
    assert!(!_is_provider(&store, &p1));
    assert!(_is_provider(&store, &p2));
}

#[test]
fn test_admin_is_not_auto_whitelisted_as_provider() {
    let (store, admin) = setup();
    assert!(_is_authorized(&store, &admin));
    assert!(!_is_provider(&store, &admin));
}

#[test]
fn remove_authorized_drops_every_occurrence() {
    let mut store = InstanceStorage::new();
    let a = generate(1);
    let b = generate(2);
    _set_admin(&mut store, &vec![a.clone(), b.clone(), a.clone()]);
    _remove_authorized(&mut store, &a);
    assert_eq!(_get_admin(&store), &vec![b.clone()]);
}

#[test]
fn add_authorized_appends_at_the_end() {
    let (mut store, admin1) = setup();
    let admin2 = generate(2);
    _add_authorized(&mut store, &admin2);
    assert_eq!(_get_admin(&store), &vec![admin1, admin2]);
}

#[test]
fn pause_flag_round_trips() {
    let mut store = InstanceStorage::new();
    assert!(!_is_paused(&store));
    _set_paused(&mut store, true);
    assert!(_is_paused(&store));
    _set_paused(&mut store, false);
    assert!(!_is_paused(&store));
}
