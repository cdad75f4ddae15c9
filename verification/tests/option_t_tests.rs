use towel::either::Either;
use towel::option_t::OptionT;

#[test]
fn new_wraps_present_value() {
    let x: OptionT<String, i32> = OptionT::new(3);
    assert_eq!(x.0, Either::Right(Some(3)));
}

#[test]
fn wrap_wraps_present_value() {
    let x: OptionT<String, i32> = OptionT::wrap(3);
    assert_eq!(x.0, Either::Right(Some(3)));
}

#[test]
fn fmap_identity_present() {
    let x: OptionT<String, i32> = OptionT::new(5);
    assert_eq!(x.fmap(|a| a).0, Either::Right(Some(5)));
}

#[test]
fn fmap_identity_absent() {
    let x: OptionT<String, i32> = OptionT(Either::Right(None));
    assert_eq!(x.fmap(|a| a).0, Either::Right(None));
}

#[test]
fn fmap_identity_alternate() {
    let x: OptionT<String, i32> = OptionT(Either::Left("oops".to_string()));
    assert_eq!(x.fmap(|a| a).0, Either::Left("oops".to_string()));
}

#[test]
fn fmap_composition_present() {
    let f = |a: i32| a + 1;
    let g = |b: i32| b * 2;
    let x: OptionT<String, i32> = OptionT::new(5);
    let y: OptionT<String, i32> = OptionT::new(5);
    assert_eq!(x.fmap(f).fmap(g).0, y.fmap(|a| g(f(a))).0);
}

#[test]
fn fmap_maps_present_payload() {
    let x: OptionT<String, i32> = OptionT::new(20);
    assert_eq!(x.fmap(|a| a + 1).0, Either::Right(Some(21)));
}

#[test]
fn lift_a2_both_present() {
    let x: OptionT<String, i32> = OptionT::new(40);
    let y: OptionT<String, i32> = OptionT::new(2);
    assert_eq!(x.lift_a2(y, |a, b| a + b).0, Either::Right(Some(42)));
}

#[test]
fn lift_a2_self_alternate_wins() {
    let x: OptionT<String, i32> = OptionT(Either::Left("first".to_string()));
    let y: OptionT<String, i32> = OptionT(Either::Left("second".to_string()));
    assert_eq!(x.lift_a2(y, |a, b| a + b).0, Either::Left("first".to_string()));
}

#[test]
fn lift_a2_absence_wins_over_presence() {
    let x: OptionT<String, i32> = OptionT(Either::Right(None));
    let y: OptionT<String, i32> = OptionT::new(2);
    assert_eq!(x.lift_a2(y, |a, b| a + b).0, Either::Right(None));

    let x: OptionT<String, i32> = OptionT::new(1);
    let y: OptionT<String, i32> = OptionT(Either::Right(None));
    assert_eq!(x.lift_a2(y, |a, b| a + b).0, Either::Right(None));
}

#[test]
fn bind_present_applies_function() {
    let x: OptionT<String, i32> = OptionT(Either::Right(Some(3)));
    let r = x.bind(|a| OptionT(Either::Right(Some(a + 1))));
    assert_eq!(r.0, Either::Right(Some(4)));
}

#[test]
fn bind_absent_skips_function() {
    let x: OptionT<String, i32> = OptionT(Either::Right(None));
    let r = x.bind(|_a: i32| -> OptionT<String, i32> { panic!("must not be invoked") });
    assert_eq!(r.0, Either::Right(None));
}

#[test]
fn bind_alternate_skips_function() {
    let x: OptionT<String, i32> = OptionT(Either::Left("oops".to_string()));
    let r = x.bind(|_a: i32| -> OptionT<String, i32> { panic!("must not be invoked") });
    assert_eq!(r.0, Either::Left("oops".to_string()));
}

fn halve(a: i32) -> OptionT<String, i32> {
    if a % 2 == 0 {
        OptionT(Either::Right(Some(a / 2)))
    } else {
        OptionT(Either::Right(None))
    }
}

#[test]
fn transformer_equivalence_with_manual_nesting() {
    let cases: Vec<Either<String, Option<i32>>> = vec![
        Either::Left("oops".to_string()),
        Either::Right(None),
        Either::Right(Some(6)),
        Either::Right(Some(7)),
    ];
    for m in cases {
        let through_wrapper = OptionT(m.clone()).bind(halve);
        let by_hand = m.bind(|o: Option<i32>| match o {
            None => Either::pure(None),
            Some(a) => halve(a).0,
        });
        assert_eq!(through_wrapper.0, by_hand);
    }
}
