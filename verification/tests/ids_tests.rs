use opencord::domain::ids::{new_prefixed_id, prefixed_id_for};

#[test]
fn identifiers_print_uuids_in_hyphenated_groups() {
    let id: u128 = 0x0123_4567_89ab_cdef_fedc_ba98_7654_3210;
    assert_eq!(prefixed_id_for("  usr ", id), "usr_01234567-89ab-cdef-fedc-ba9876543210");
    assert_eq!(prefixed_id_for("evt", id), format!("evt_{}", uuid::Uuid::from_u128(id)));
    assert_eq!(prefixed_id_for("x", u128::MAX), "x_ffffffff-ffff-ffff-ffff-ffffffffffff");
    assert_eq!(prefixed_id_for("x", 0), "x_00000000-0000-0000-0000-000000000000");
}

#[test]
fn new_identifiers_carry_a_version_seven_uuid() {
    let a = new_prefixed_id(" msg ");
    assert!(a.starts_with("msg_"));
    assert_eq!(a.len(), 4 + 36);
    let u = uuid::Uuid::parse_str(&a[4..]).unwrap();
    assert_eq!(u.get_version_num(), 7);
    assert_eq!(&a[4 + 14..4 + 15], "7");
}
