use cargo_verify::floors;
use cargo_verify::floors_sum;

#[test]
fn empty() {
    assert_eq!(floors::santa(""), 0);
    assert_eq!(floors_sum::santa(""), 0)
}

#[test]
fn base1() {
    assert_eq!(floors::santa("("), 1);
    assert_eq!(floors::santa(")"), -1);
    assert_eq!(floors_sum::santa("("), 1);
    assert_eq!(floors_sum::santa(")"), -1);
}

#[test]
fn main_empty() {
    assert_eq!(floors::underground_santa(""), None);
    assert_eq!(floors_sum::underground_santa(""), None)
}

#[test]
fn main_base1() {
    assert_eq!(floors::underground_santa("("), None);
    assert_eq!(floors::underground_santa(")"), Some(1));
    assert_eq!(floors_sum::underground_santa("("), None);
    assert_eq!(floors_sum::underground_santa(")"), Some(1));
}

#[test]
fn santa_ignores_other_characters() {
    assert_eq!(floors::santa("a(b)c"), 0);
    assert_eq!(floors_sum::santa("a(b)c"), 0);
    assert_eq!(floors::santa("(()(()("), 3);
}

#[test]
fn santa_onechar_values() {
    assert_eq!(floors::santa_onechar('('), 1);
    assert_eq!(floors::santa_onechar(')'), -1);
    assert_eq!(floors::santa_onechar('x'), 0);
    assert_eq!(floors_sum::santa_char('('), 1);
    assert_eq!(floors_sum::santa_char(')'), -1);
    assert_eq!(floors_sum::santa_char('x'), 0);
}

#[test]
fn santa_spec_agrees_with_santa() {
    for dirs in ["", "(", ")", "(())", "))(((", "a(b)c", "()()()(", ")))"] {
        assert_eq!(floors_sum::santa_spec(dirs), floors::santa(dirs));
        assert_eq!(floors_sum::santa_spec(dirs), floors_sum::santa(dirs));
    }
}

#[test]
fn underground_finds_first_basement_step() {
    assert_eq!(floors::underground_santa("()())"), Some(5));
    assert_eq!(floors::underground_santa("()("), None);
    assert_eq!(floors_sum::underground_santa_spec("()())"), Some(5));
    assert_eq!(floors_sum::underground_santa_spec("()("), None);
    // Once underground, later directions change nothing.
    assert_eq!(floors::underground_santa(")((((("), Some(1));
    assert_eq!(floors_sum::underground_santa_spec(")((((("), Some(1));
}
