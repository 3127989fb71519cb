use storage_value::codec::Codec;
use storage_value::instances::NumberList;
use storage_value::instances::PendingValue;
use storage_value::instances::TotalValue;
use storage_value::store::Store;
use storage_value::value::append;
use storage_value::value::decode_len;
use storage_value::value::exists_value;
use storage_value::value::get;
use storage_value::value::hashed_key;
use storage_value::value::kill;
use storage_value::value::mutate;
use storage_value::value::put;
use storage_value::value::storage_value_final_key;
use storage_value::value::take;
use storage_value::value::translate;
use storage_value::value::try_get;
use storage_value::value::try_mutate;

#[test]
fn address_is_deterministic_and_matches_the_host_hash() {
    let k1 = storage_value_final_key::<TotalValue>();
    let k2 = storage_value_final_key::<TotalValue>();
    assert_eq!(k1, k2);
    assert_eq!(k1.len(), 32);
    assert_eq!(k1, hashed_key::<TotalValue>());

    let mut expect = sp_io::hashing::twox_128(b"Accounts").to_vec();
    expect.extend_from_slice(&sp_io::hashing::twox_128(b"Total"));
    assert_eq!(k1, expect);

    let k3 = storage_value_final_key::<NumberList>();
    let k4 = storage_value_final_key::<PendingValue>();
    assert_ne!(k1, k3);
    assert_ne!(k1, k4);
    assert_ne!(k3, k4);
}

#[test]
fn counter_scenario() {
    let mut s = Store::new();
    assert_eq!(get::<TotalValue>(&s), 0);
    assert!(!exists_value::<TotalValue>(&s));
    put::<TotalValue>(&mut s, &42);
    assert_eq!(get::<TotalValue>(&s), 42);
    assert!(exists_value::<TotalValue>(&s));
    assert_eq!(take::<TotalValue>(&mut s), 42);
    assert!(!exists_value::<TotalValue>(&s));
    assert_eq!(get::<TotalValue>(&s), 0);
}

#[test]
fn put_stores_the_scale_encoding() {
    let mut s = Store::new();
    put::<TotalValue>(&mut s, &42);
    let key = storage_value_final_key::<TotalValue>();
    let raw = s.get_raw(&key).expect("payload must be present");
    assert_eq!(raw, parity_scale_codec::Encode::encode(&42u64));
    let back = <u64 as parity_scale_codec::Decode>::decode(&mut &raw[..]).unwrap();
    assert_eq!(back, 42);
    assert_eq!(try_get::<TotalValue>(&s), Ok(42));
}

#[test]
fn try_get_fails_on_absent_and_corrupt() {
    let mut s = Store::new();
    assert_eq!(try_get::<TotalValue>(&s), Err(()));
    let key = storage_value_final_key::<TotalValue>();
    s.put_raw(key, vec![1u8, 2u8, 3u8]);
    assert!(exists_value::<TotalValue>(&s));
    assert_eq!(try_get::<TotalValue>(&s), Err(()));
    // a corrupt payload reads as the default
    assert_eq!(get::<TotalValue>(&s), 0);
}

#[test]
fn kill_is_idempotent() {
    let mut s = Store::new();
    put::<TotalValue>(&mut s, &7);
    kill::<TotalValue>(&mut s);
    assert!(!exists_value::<TotalValue>(&s));
    kill::<TotalValue>(&mut s);
    assert!(!exists_value::<TotalValue>(&s));
}

#[test]
fn failed_mutation_leaves_bytes_identical() {
    let mut s = Store::new();
    put::<TotalValue>(&mut s, &7);
    let key = storage_value_final_key::<TotalValue>();
    let before = s.get_raw(&key).unwrap();
    let r = try_mutate::<TotalValue, (), &'static str, _>(&mut s, |_q| Err("refused"));
    assert_eq!(r, Err("refused"));
    assert_eq!(s.get_raw(&key).unwrap(), before);
    assert_eq!(get::<TotalValue>(&s), 7);
}

#[test]
fn successful_mutation_commits() {
    let mut s = Store::new();
    put::<TotalValue>(&mut s, &7);
    let r = try_mutate::<TotalValue, u64, (), _>(&mut s, |q| Ok((q + 1, q)));
    assert_eq!(r, Ok(7));
    assert_eq!(get::<TotalValue>(&s), 8);
    let doubled = mutate::<TotalValue, u64, _>(&mut s, |q| (q * 2, q * 2));
    assert_eq!(doubled, 16);
    assert_eq!(get::<TotalValue>(&s), 16);
}

#[test]
fn mutation_to_none_clears_storage() {
    let mut s = Store::new();
    put::<PendingValue>(&mut s, &5);
    let r = try_mutate::<PendingValue, (), (), _>(&mut s, |_q| Ok((None, ())));
    assert_eq!(r, Ok(()));
    assert!(!exists_value::<PendingValue>(&s));
}

#[test]
fn set_default_deletes() {
    let mut s = Store::new();
    put::<PendingValue>(&mut s, &5);
    assert!(exists_value::<PendingValue>(&s));
    storage_value::value::set::<PendingValue>(&mut s, None);
    assert!(!exists_value::<PendingValue>(&s));
    storage_value::value::set::<PendingValue>(&mut s, Some(9));
    assert_eq!(get::<PendingValue>(&s), Some(9));
}

#[test]
fn append_builds_the_sequence_encoding() {
    let mut s = Store::new();
    append::<NumberList>(&mut s, 1);
    append::<NumberList>(&mut s, 2);
    append::<NumberList>(&mut s, 3);
    assert_eq!(decode_len::<NumberList>(&s), Ok(3));
    assert_eq!(get::<NumberList>(&s), vec![1, 2, 3]);
    let key = storage_value_final_key::<NumberList>();
    let raw = s.get_raw(&key).unwrap();
    assert_eq!(raw, parity_scale_codec::Encode::encode(&vec![1u64, 2u64, 3u64]));
}

#[test]
fn append_extends_a_stored_sequence() {
    let mut s = Store::new();
    put::<NumberList>(&mut s, &vec![5, 6]);
    append::<NumberList>(&mut s, 7);
    assert_eq!(get::<NumberList>(&s), vec![5, 6, 7]);
    assert_eq!(decode_len::<NumberList>(&s), Ok(3));
}

#[test]
fn decode_len_of_absent_payload_is_the_default_length() {
    let s = Store::new();
    assert_eq!(decode_len::<NumberList>(&s), Ok(0));
}

#[test]
fn decode_len_reports_a_corrupt_prefix() {
    let mut s = Store::new();
    let key = storage_value_final_key::<NumberList>();
    // prefix byte announces a two-byte form, but the payload ends
    s.put_raw(key, vec![1u8]);
    assert!(decode_len::<NumberList>(&s).is_err());
}

#[test]
fn translate_rewrites_the_payload() {
    let mut s = Store::new();
    put::<TotalValue>(&mut s, &10);
    let r = translate::<TotalValue, u64, _>(&mut s, |o: Option<u64>| o.map(|x| x * 2));
    assert_eq!(r, Ok(Some(20)));
    assert_eq!(get::<TotalValue>(&s), 20);
}

#[test]
fn translate_to_none_deletes() {
    let mut s = Store::new();
    put::<TotalValue>(&mut s, &10);
    let r = translate::<TotalValue, u64, _>(&mut s, |_o: Option<u64>| None);
    assert_eq!(r, Ok(None));
    assert!(!exists_value::<TotalValue>(&s));
}

#[test]
fn translate_of_absent_payload_sees_none() {
    let mut s = Store::new();
    let r = translate::<TotalValue, u64, _>(&mut s, |o: Option<u64>| Some(o.unwrap_or(99)));
    assert_eq!(r, Ok(Some(99)));
    assert_eq!(get::<TotalValue>(&s), 99);
}

#[test]
fn translate_fails_on_undecodable_old_payload() {
    let mut s = Store::new();
    let key = storage_value_final_key::<TotalValue>();
    s.put_raw(key.clone(), vec![1u8, 2u8, 3u8]);
    let before = s.get_raw(&key).unwrap();
    let r = translate::<TotalValue, u64, _>(&mut s, |o: Option<u64>| o);
    assert_eq!(r, Err(()));
    assert_eq!(s.get_raw(&key).unwrap(), before);
}

#[test]
fn translate_changes_the_format() {
    let mut s = Store::new();
    put::<TotalValue>(&mut s, &7);
    let key = storage_value_final_key::<TotalValue>();
    // carry the old-format payload over to the sequence value's slot
    let old = s.get_raw(&key).unwrap();
    let mut list_store = Store::new();
    let list_key = storage_value_final_key::<NumberList>();
    list_store.put_raw(list_key, old);
    let r = translate::<NumberList, u64, _>(&mut list_store, |o: Option<u64>| {
        o.map(|x| vec![x, x])
    });
    assert_eq!(r, Ok(Some(vec![7, 7])));
    assert_eq!(get::<NumberList>(&list_store), vec![7, 7]);
}

#[test]
fn library_encoding_matches_the_codec_crate() {
    // the trusted entry points hand back real SCALE bytes, not their input
    let v = <u64 as Codec>::encode(&0x0102030405060708);
    assert_eq!(v, parity_scale_codec::Encode::encode(&0x0102030405060708u64));
    assert_eq!(v, vec![8u8, 7, 6, 5, 4, 3, 2, 1]);
    let l = <Vec<u64> as Codec>::encode(&vec![99, 100]);
    assert_eq!(l, parity_scale_codec::Encode::encode(&vec![99u64, 100u64]));
    assert_eq!(l[0], 2u8 << 2);
    assert_eq!(<u64 as Codec>::decode(&v), Some(0x0102030405060708));
    assert_eq!(<Vec<u64> as Codec>::decode(&l), Some(vec![99, 100]));
    assert_eq!(<u64 as Codec>::decode(&[1u8, 2u8]), None);
}

#[test]
fn distinct_values_do_not_alias() {
    let mut s = Store::new();
    put::<TotalValue>(&mut s, &1);
    put::<PendingValue>(&mut s, &2);
    append::<NumberList>(&mut s, 3);
    assert_eq!(get::<TotalValue>(&s), 1);
    assert_eq!(get::<PendingValue>(&s), Some(2));
    assert_eq!(get::<NumberList>(&s), vec![3]);
    kill::<TotalValue>(&mut s);
    assert_eq!(get::<PendingValue>(&s), Some(2));
    assert_eq!(get::<NumberList>(&s), vec![3]);
}

#[test]
fn append_across_the_prefix_width_boundary() {
    // 63 elements use a one-byte length prefix; the 64th forces two bytes
    let mut s = Store::new();
    let mut i: u64 = 0;
    while i < 63 {
        append::<NumberList>(&mut s, i);
        i += 1;
    }
    assert_eq!(decode_len::<NumberList>(&s), Ok(63));
    append::<NumberList>(&mut s, 63);
    assert_eq!(decode_len::<NumberList>(&s), Ok(64));
    let expect: Vec<u64> = (0..64).collect();
    assert_eq!(get::<NumberList>(&s), expect);
    let key = storage_value_final_key::<NumberList>();
    assert_eq!(
        s.get_raw(&key).unwrap(),
        parity_scale_codec::Encode::encode(&expect)
    );
}

#[test]
fn append_to_a_long_sequence_uses_the_wide_prefix() {
    // 20000 elements need a four-byte length prefix
    let mut s = Store::new();
    let long: Vec<u64> = (0..20000).collect();
    put::<NumberList>(&mut s, &long);
    assert_eq!(decode_len::<NumberList>(&s), Ok(20000));
    append::<NumberList>(&mut s, 20000);
    assert_eq!(decode_len::<NumberList>(&s), Ok(20001));
    let expect: Vec<u64> = (0..20001).collect();
    assert_eq!(get::<NumberList>(&s), expect);
}

#[test]
fn take_leaves_an_undecodable_payload_in_place() {
    let mut s = Store::new();
    let key = storage_value_final_key::<TotalValue>();
    s.put_raw(key.clone(), vec![1u8, 2u8, 3u8]);
    // the corrupt payload reads as the default, and survives the take
    assert_eq!(take::<TotalValue>(&mut s), 0);
    assert!(exists_value::<TotalValue>(&s));
    assert_eq!(s.get_raw(&key).unwrap(), vec![1u8, 2u8, 3u8]);
    // a decodable payload is taken and cleared
    put::<TotalValue>(&mut s, &6);
    assert_eq!(take::<TotalValue>(&mut s), 6);
    assert!(!exists_value::<TotalValue>(&s));
}
