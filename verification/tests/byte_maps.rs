use price_oracle::asset_symbol::is_approved_asset_symbol;
use price_oracle::bytes::{bytes_eq, compare_bytes, copy_bytes, ByteOrder};
use price_oracle::keymap::KeyMap;

#[test]
fn compare_bytes_is_lexicographic() {
    assert_eq!(compare_bytes(&b"ABC".to_vec(), &b"ABD".to_vec()), ByteOrder::Less);
    assert_eq!(compare_bytes(&b"AB".to_vec(), &b"ABC".to_vec()), ByteOrder::Less);
    assert_eq!(compare_bytes(&b"B".to_vec(), &b"ABC".to_vec()), ByteOrder::Greater);
    assert_eq!(compare_bytes(&b"".to_vec(), &b"".to_vec()), ByteOrder::Equal);
    assert_eq!(compare_bytes(&b"Z".to_vec(), &b"_".to_vec()), ByteOrder::Less);
    assert!(bytes_eq(&b"NGN".to_vec(), &b"NGN".to_vec()));
    assert!(!bytes_eq(&b"NGN".to_vec(), &b"NG".to_vec()));
    assert_eq!(copy_bytes(&b"xyz".to_vec()), b"xyz".to_vec());
}

#[test]
fn keymap_set_get_remove() {
    let mut m: KeyMap<u32> = KeyMap::new();
    m.set(b"b".to_vec(), 2);
    m.set(b"a".to_vec(), 1);
    m.set(b"c".to_vec(), 3);
    m.set(b"b".to_vec(), 20);
    assert_eq!(m.get(&b"b".to_vec()), Some(&20));
    assert_eq!(m.get(&b"a".to_vec()), Some(&1));
    assert_eq!(m.get(&b"d".to_vec()), None);
    assert_eq!(m.keys(), vec![b"a".to_vec(), b"b".to_vec(), b"c".to_vec()]);
    m.remove(&b"a".to_vec());
    m.remove(&b"zz".to_vec());
    assert!(!m.contains_key(&b"a".to_vec()));
    assert!(m.contains_key(&b"c".to_vec()));
    assert_eq!(m.keys(), vec![b"b".to_vec(), b"c".to_vec()]);
}

#[test]
fn approved_symbols_are_ngn_kes_ghs() {
    assert!(is_approved_asset_symbol(&b"NGN".to_vec()));
    assert!(is_approved_asset_symbol(&b"KES".to_vec()));
    assert!(is_approved_asset_symbol(&b"GHS".to_vec()));
    assert!(!is_approved_asset_symbol(&b"ETH".to_vec()));
    assert!(!is_approved_asset_symbol(&b"ngn".to_vec()));
    assert!(!is_approved_asset_symbol(&b"NGNX".to_vec()));
    assert!(!is_approved_asset_symbol(&b"".to_vec()));
}
