use trinary::types::{Error, Sign, S129};

#[test]
fn test_s129_add_assign() {
    // Example: (+, 2) + (-, 4) = (-, 2)
    let mut a = S129(Sign::Pos, 2);
    let b = S129(Sign::Neg, 4);
    a = a.add(b).unwrap();
    assert_eq!(S129(Sign::Neg, 2), a);

    // Example: (+, 2) + (-, 1) = (+, 1)
    let mut a = S129(Sign::Pos, 2);
    let b = S129(Sign::Neg, 1);
    a = a.add(b).unwrap();
    assert_eq!(S129(Sign::Pos, 1), a);

    // Example: (+, 2) + (-, 2) = (+, 0)
    let mut a = S129(Sign::Pos, 2);
    let b = S129(Sign::Neg, 2);
    a = a.add(b).unwrap();
    assert_eq!(S129(Sign::Pos, 0), a);

    // Example: (-, 2) + (+, 4) = (+, 2)
    let mut a = S129(Sign::Neg, 2);
    let b = S129(Sign::Pos, 4);
    a = a.add(b).unwrap();
    assert_eq!(S129(Sign::Pos, 2), a);

    // Example: (-, 2) + (+, 1) = (-, 1)
    let mut a = S129(Sign::Neg, 2);
    let b = S129(Sign::Pos, 1);
    a = a.add(b).unwrap();
    assert_eq!(S129(Sign::Neg, 1), a);

    // Example: (-, 2) + (+, 2) = (+, 0)
    let mut a = S129(Sign::Neg, 2);
    let b = S129(Sign::Pos, 2);
    a = a.add(b).unwrap();
    assert_eq!(S129(Sign::Pos, 0), a);

    // Example: (+, 2) + (+, 4) = (+, 6)
    let mut a = S129(Sign::Pos, 2);
    let b = S129(Sign::Pos, 4);
    a = a.add(b).unwrap();
    assert_eq!(S129(Sign::Pos, 6), a);

    // Example: (-, 2) + (-, 4) = (-, 6)
    let mut a = S129(Sign::Neg, 2);
    let b = S129(Sign::Neg, 4);
    a = a.add(b).unwrap();
    assert_eq!(S129(Sign::Neg, 6), a);
}

#[test]
fn test_add_commutative() {
    let values = [
        S129(Sign::Pos, 0),
        S129(Sign::Pos, 1),
        S129(Sign::Neg, 1),
        S129(Sign::Pos, 12345678901234567890),
        S129(Sign::Neg, 98765432109876543210),
        S129(Sign::Pos, u128::MAX),
        S129(Sign::Neg, u128::MAX),
    ];
    for &a in values.iter() {
        for &b in values.iter() {
            assert_eq!(a.add(b), b.add(a));
        }
    }
}

#[test]
fn test_add_associative() {
    let values = [
        S129(Sign::Pos, 0),
        S129(Sign::Pos, 7),
        S129(Sign::Neg, 3),
        S129(Sign::Pos, 340282366920938463463374607431768211),
        S129(Sign::Neg, 100000000000000000000000000000000000000),
    ];
    for &a in values.iter() {
        for &b in values.iter() {
            for &c in values.iter() {
                let left = a.add(b).unwrap().add(c).unwrap();
                let right = a.add(b.add(c).unwrap()).unwrap();
                assert_eq!(left, right);
            }
        }
    }
}

#[test]
fn test_add_negate_is_canonical_zero() {
    let values = [
        S129(Sign::Pos, 0),
        S129(Sign::Pos, 1),
        S129(Sign::Neg, 1),
        S129(Sign::Neg, 221713244121518884974124815309574946401),
        S129(Sign::Pos, u128::MAX),
    ];
    for &x in values.iter() {
        assert_eq!(Ok(S129(Sign::Pos, 0)), x.add(x.negate()));
    }
}

#[test]
fn test_negate() {
    assert_eq!(S129(Sign::Pos, 0), S129(Sign::Pos, 0).negate());
    assert_eq!(S129(Sign::Neg, 5), S129(Sign::Pos, 5).negate());
    assert_eq!(S129(Sign::Pos, 5), S129(Sign::Neg, 5).negate());
}

#[test]
fn test_add_overflow() {
    assert_eq!(
        Err(Error::MagnitudeOverflow),
        S129(Sign::Pos, u128::MAX).add(S129(Sign::Pos, 1))
    );
    assert_eq!(
        Err(Error::MagnitudeOverflow),
        S129(Sign::Neg, u128::MAX).add(S129(Sign::Neg, u128::MAX))
    );
    assert_eq!(
        Ok(S129(Sign::Pos, u128::MAX)),
        S129(Sign::Pos, u128::MAX).add(S129(Sign::Pos, 0))
    );
    assert_eq!(
        Ok(S129(Sign::Pos, 0)),
        S129(Sign::Pos, u128::MAX).add(S129(Sign::Neg, u128::MAX))
    );
}
