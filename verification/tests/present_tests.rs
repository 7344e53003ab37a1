use cargo_verify::presents::{ribbon, wrap, Present, PresentParseError};

#[test]
fn check_wrap_case1() {
    assert_eq!(wrap(&vec![]), 0);
}

#[test]
fn ribbon_case1() {
    assert_eq!(ribbon(&vec![]), 0usize);
}

#[test]
fn wrap_formula() {
    // 2*(2*3 + 3*4 + 4*2) + 2*3 = 52 + 6
    assert_eq!(Present::new(2, 3, 4).wrap(), 58);
    assert_eq!(Present::new(1, 1, 10).wrap(), 43);
    assert_eq!(Present::new(0, 5, 7).wrap(), 70);
}

#[test]
fn ribbon_formula() {
    // 2*(2+3) + 2*3*4 = 34
    assert_eq!(Present::new(2, 3, 4).ribbon(), 34);
    assert_eq!(Present::new(1, 1, 10).ribbon(), 14);
}

#[test]
fn wrap_and_ribbon_sum_over_all_presents() {
    let ps = vec![Present::new(2, 3, 4), Present::new(1, 1, 10)];
    assert_eq!(wrap(&ps), 58 + 43);
    assert_eq!(ribbon(&ps), 34 + 14);
}

#[test]
fn present_parses_from_text() {
    assert_eq!(Present::from_str("2x3x4"), Ok(Present::new(2, 3, 4)));
    assert_eq!(Present::from_str("0x0x0"), Ok(Present::new(0, 0, 0)));
    assert_eq!(Present::from_str("+2x3x4"), Ok(Present::new(2, 3, 4)));
}

#[test]
fn present_parse_rejects_bad_numbers() {
    assert_eq!(Present::from_str("axbxc"), Err(PresentParseError::InvalidNumber));
    assert_eq!(Present::from_str("1xx3"), Err(PresentParseError::InvalidNumber));
    assert_eq!(Present::from_str(""), Err(PresentParseError::InvalidNumber));
    // A bad number is reported even when the count is also wrong.
    assert_eq!(Present::from_str("1x2x3xa"), Err(PresentParseError::InvalidNumber));
}

#[test]
fn present_parse_rejects_wrong_count() {
    assert_eq!(Present::from_str("1x2"), Err(PresentParseError::WrongDimensionCount));
    assert_eq!(Present::from_str("1x2x3x4"), Err(PresentParseError::WrongDimensionCount));
    assert_eq!(
        PresentParseError::WrongDimensionCount.message(),
        "Present should have exactly three diminsions!"
    );
}

#[test]
fn present_renders_and_reparses() {
    let p = Present::new(12, 0, 345);
    assert_eq!(p.to_text(), "12x0x345");
    assert_eq!(Present::from_str(&p.to_text()), Ok(p));
}
