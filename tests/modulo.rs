use chip::Modulo;

#[test]
fn positive() {
    let a: isize = 31;
    let b: isize = 20;
    assert_eq!(a.modulo(b), 11);
}

#[test]
fn positive_contained() {
    let a: isize = 9;
    let b: isize = 20;
    assert_eq!(a.modulo(b), 9);
}

#[test]
fn negative() {
    let a: isize = -31;
    let b: isize = 20;
    assert_eq!(a.modulo(b), 9);
}

#[test]
fn negative_contained() {
    let a: isize = -9;
    let b: isize = 20;
    assert_eq!(a.modulo(b), 11);
}

#[test]
fn modulo_exact_multiple_is_zero() {
    assert_eq!((-40isize).modulo(20), 0);
    assert_eq!(40isize.modulo(20), 0);
    assert_eq!(0isize.modulo(7), 0);
}

#[test]
fn modulo_extremes() {
    assert_eq!(isize::MIN.modulo(isize::MAX), (isize::MAX - 1) as usize);
    assert_eq!((-1isize).modulo(isize::MAX), (isize::MAX - 1) as usize);
}
