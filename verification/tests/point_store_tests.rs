use dpoll::errors::ConfigError;
use dpoll::format_spec::Functions;
use dpoll::point_store::{
    build_float_point_writes, build_point_writes, plan_point_reads, PointCategory, PointStore,
    PointValue,
};

#[test]
fn a_cell_is_unset_until_an_update_lands() {
    let mut store = PointStore::new();
    assert_eq!(store.read(PointCategory::Siq, 5), None);
    store.update(5, PointValue::Siq(true));
    assert_eq!(store.read(PointCategory::Siq, 5), Some(PointValue::Siq(true)));
    assert_eq!(store.read(PointCategory::Siq, 6), None);
}

#[test]
fn a_second_update_overwrites_unconditionally() {
    let mut store = PointStore::new();
    store.update(5, PointValue::Nva(100));
    store.update(5, PointValue::Nva(-7));
    assert_eq!(store.read(PointCategory::Nva, 5), Some(PointValue::Nva(-7)));
}

#[test]
fn categories_are_independent() {
    let mut store = PointStore::new();
    store.update(5, PointValue::Siq(true));
    store.update(5, PointValue::Diq(2));
    store.update(5, PointValue::Bcr(-1));
    assert_eq!(store.read(PointCategory::Siq, 5), Some(PointValue::Siq(true)));
    assert_eq!(store.read(PointCategory::Diq, 5), Some(PointValue::Diq(2)));
    assert_eq!(store.read(PointCategory::Bcr, 5), Some(PointValue::Bcr(-1)));
    assert_eq!(store.read(PointCategory::Sva, 5), None);
    assert_eq!(store.read(PointCategory::Nva, 5), None);
    assert_eq!(store.read(PointCategory::R, 5), None);
}

#[test]
fn every_category_stores_and_reads_back() {
    let mut store = PointStore::new();
    let bits = 2.5_f32.to_bits();
    store.update(1, PointValue::Siq(false));
    store.update(2, PointValue::Diq(3));
    store.update(3, PointValue::Nva(-32768));
    store.update(4, PointValue::Sva(32767));
    store.update(5, PointValue::R(bits));
    store.update(6, PointValue::Bcr(123456));
    assert_eq!(store.read(PointCategory::Siq, 1), Some(PointValue::Siq(false)));
    assert_eq!(store.read(PointCategory::Diq, 2), Some(PointValue::Diq(3)));
    assert_eq!(store.read(PointCategory::Nva, 3), Some(PointValue::Nva(-32768)));
    assert_eq!(store.read(PointCategory::Sva, 4), Some(PointValue::Sva(32767)));
    match store.read(PointCategory::R, 5) {
        Some(PointValue::R(b)) => assert_eq!(f32::from_bits(b), 2.5),
        other => panic!("unexpected cell contents: {:?}", other),
    }
    assert_eq!(store.read(PointCategory::Bcr, 6), Some(PointValue::Bcr(123456)));
}

#[test]
fn a_batch_lands_in_order_last_write_wins() {
    let mut store = PointStore::new();
    let batch = vec![
        (10u16, PointValue::Sva(1)),
        (11u16, PointValue::Sva(2)),
        (10u16, PointValue::Sva(3)),
    ];
    store.apply_inbound_batch(&batch);
    assert_eq!(store.read(PointCategory::Sva, 10), Some(PointValue::Sva(3)));
    assert_eq!(store.read(PointCategory::Sva, 11), Some(PointValue::Sva(2)));
}

#[test]
fn read_all_populated_scans_in_ascending_address_order() {
    let mut store = PointStore::new();
    store.update(300, PointValue::Diq(1));
    store.update(2, PointValue::Diq(2));
    store.update(40, PointValue::Diq(0));
    let all = store.diq.read_all_populated();
    assert_eq!(all, vec![(2u16, 2u8), (40u16, 0u8), (300u16, 1u8)]);
    assert_eq!(store.siq.read_all_populated(), vec![]);
}

#[test]
fn point_writes_advance_by_one_address() {
    let lits = vec!["true".to_string(), "false".to_string()];
    let plan = build_point_writes(Functions::Siq, &lits, 10).unwrap();
    assert_eq!(plan, vec![(10, PointValue::Siq(true)), (11, PointValue::Siq(false))]);
}

#[test]
fn point_write_literals_follow_their_category() {
    let plan = build_point_writes(Functions::Diq, &vec!["3".to_string()], 0).unwrap();
    assert_eq!(plan, vec![(0, PointValue::Diq(3))]);
    let plan = build_point_writes(Functions::Nva, &vec!["-5".to_string()], 7).unwrap();
    assert_eq!(plan, vec![(7, PointValue::Nva(-5))]);
    let plan = build_point_writes(Functions::Sva, &vec!["20".to_string()], 7).unwrap();
    assert_eq!(plan, vec![(7, PointValue::Sva(20))]);
    let plan = build_point_writes(Functions::Bcr, &vec!["-100000".to_string()], 1).unwrap();
    assert_eq!(plan, vec![(1, PointValue::Bcr(-100000))]);
}

#[test]
fn bad_point_write_literals_abort() {
    // a double-point code is two bits: 4 is out of range
    assert_eq!(
        build_point_writes(Functions::Diq, &vec!["4".to_string()], 0),
        Err(ConfigError::InvalidLiteral)
    );
    assert_eq!(
        build_point_writes(Functions::Siq, &vec!["yes".to_string()], 0),
        Err(ConfigError::InvalidLiteral)
    );
    assert_eq!(
        build_point_writes(Functions::Nva, &vec!["40000".to_string()], 0),
        Err(ConfigError::InvalidLiteral)
    );
}

#[test]
fn float_point_writes_carry_bit_patterns() {
    let bits = vec![1.5_f32.to_bits(), (-2.0_f32).to_bits()];
    let plan = build_float_point_writes(&bits, 100);
    assert_eq!(plan.len(), 2);
    assert_eq!(plan[0], (100, PointValue::R(1.5_f32.to_bits())));
    assert_eq!(plan[1], (101, PointValue::R((-2.0_f32).to_bits())));
}

#[test]
fn point_reads_advance_by_one_per_reference() {
    let refs: Vec<u16> = vec![0, 100];
    assert_eq!(plan_point_reads(&refs, 3), vec![0, 1, 2, 100, 101, 102]);
}

#[test]
fn the_last_address_of_the_table_works() {
    let mut store = PointStore::new();
    assert_eq!(store.read(PointCategory::Bcr, 65535), None);
    store.update(65535, PointValue::Bcr(9));
    assert_eq!(store.read(PointCategory::Bcr, 65535), Some(PointValue::Bcr(9)));
    let all = store.bcr.read_all_populated();
    assert_eq!(all, vec![(65535u16, 9i32)]);
    assert_eq!(plan_point_reads(&vec![65533u16], 3), vec![65533, 65534, 65535]);
    let plan = build_point_writes(Functions::Diq, &vec!["1".to_string()], 65535).unwrap();
    assert_eq!(plan, vec![(65535, PointValue::Diq(1))]);
}
