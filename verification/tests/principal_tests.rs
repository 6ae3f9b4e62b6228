use scalable_groups::principal::Principal;

#[test]
fn principal_holds_its_bytes() {
    let p = Principal::from_slice(&[1, 2, 3]).unwrap();
    assert_eq!(p.as_slice(), &[1u8, 2, 3][..]);
    assert!(p.same(&p.clone()));
}

#[test]
fn principal_refuses_more_than_twenty_nine_bytes() {
    assert!(Principal::from_slice(&[0u8; 29]).is_some());
    assert!(Principal::from_slice(&[0u8; 30]).is_none());
}
