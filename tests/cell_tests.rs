use std::cmp::Ordering;
use tablefi::{Cell, Decimal};

#[test]
fn cell_test_cell() {
    let cell = Cell::Text("Hello, world!".to_string());
    assert_eq!(cell.to_string(), "Hello, world!");
    let cell = Cell::Number(Decimal::from(12345));
    assert_eq!(cell.to_string(), "12345");
}

#[test]
fn test_cell_string() {
    let s = "Hello, world!".to_string();
    let cell: Cell = s.clone().into();
    assert_eq!(cell, Cell::Text("Hello, world!".to_string()));
    let cell = Cell::from(s.clone());
    assert_eq!(cell, Cell::Text("Hello, world!".to_string()));
    assert_eq!(cell.to_string(), "Hello, world!");
    assert!(TryInto::<Decimal>::try_into(cell).is_err());
}

#[test]
fn test_cell_from_str() {
    let s = "Hello, world!";
    let cell: Cell = s.into();
    assert_eq!(cell, Cell::Text("Hello, world!".to_string()));
    let cell = Cell::from(s);
    assert_eq!(cell, Cell::Text("Hello, world!".to_string()));
    assert_eq!(cell.to_string(), "Hello, world!");
}

#[test]
fn test_cell_decimal() {
    let d = Decimal::from(12345);
    let cell: Cell = d.clone().into();
    assert_eq!(cell, Cell::Number(Decimal::from(12345)));
    let cell = Cell::from(d.clone());
    assert_eq!(cell, Cell::Number(Decimal::from(12345)));
    assert!(TryInto::<Decimal>::try_into(cell.clone()).is_ok());
    assert_eq!(cell.to_decimal(), Some(Decimal::from(12345)));
    assert_eq!(cell.clone().to_string(), "12345");
}

#[test]
fn test_string_or_decimal() {
    assert_eq!(TryInto::<Decimal>::try_into(Cell::from("12345678")).unwrap(), Decimal::from(12345678));
    assert_eq!(TryInto::<Decimal>::try_into(Cell::from("+12345678")).unwrap(), Decimal::from(12345678));
    assert_eq!(TryInto::<Decimal>::try_into(Cell::from("-12345678")).unwrap(), Decimal::from(-12345678));
    assert_eq!(TryInto::<Decimal>::try_into(Cell::from("123456.78")).unwrap(), Decimal::new(12345678, 2));
    assert_eq!(TryInto::<Decimal>::try_into(Cell::from("12,345,678")).unwrap(), Decimal::from(12345678));
    assert_eq!(TryInto::<Decimal>::try_into(Cell::from("-12,345,678.901")).unwrap(), Decimal::new(-12345678901, 3));
    assert!(TryInto::<Decimal>::try_into(Cell::from("++12345678")).is_err());
    assert!(TryInto::<Decimal>::try_into(Cell::from("1234.56.78")).is_err());
    assert!(TryInto::<Decimal>::try_into(Cell::from("-12,34,567,8.901")).is_err());
    assert!(TryInto::<Decimal>::try_into(Cell::from("-123,456,78.901")).is_err());
    assert_eq!(TryInto::<Decimal>::try_into(Cell::from("-123,456,781.901")).unwrap(), Decimal::new(-123456781901, 3));
    assert!(TryInto::<Decimal>::try_into(Cell::from("-123,456,78")).is_err());
    assert_eq!(TryInto::<Decimal>::try_into(Cell::from("-123,456,781")).unwrap(), Decimal::from(-123456781));
    assert!(TryInto::<Decimal>::try_into(Cell::from("\"-123,456,781\"")).is_err());
    assert!(TryInto::<Decimal>::try_into(Cell::from("'-123,456,781'")).is_err());
    assert!(TryInto::<Decimal>::try_into(Cell::from("-12a,456,781")).is_err());
}

#[test]
fn test_is_text() {
    let cell = Cell::Text("Hello, world!".to_string());
    assert!(cell.is_text());
    assert!(!cell.is_number());
}

#[test]
fn test_is_number() {
    let cell = Cell::Number(Decimal::from(12345));
    assert!(!cell.is_text());
    assert!(cell.is_number());
}

#[test]
fn test_cell_replace() {
    let mut cell = Cell::from("123.456");
    assert_eq!(cell.to_decimal(), Some(Decimal::new(123456, 3)));
    cell.replace_value(&Cell::from("abcd"));
    assert_eq!(cell.to_string(), "abcd".to_string());
}

#[test]
fn test_cell_add() {
    let number1 = Cell::from("123.456");
    let number2 = Cell::from("8");
    assert_eq!((&number1 + &number2).to_decimal(), Some(Decimal::new(131456, 3)));
    let text1 = Cell::from("abcd");
    assert_eq!((&text1 + &number2).to_string(), "abcd".to_string());
    let mut number3 = number1.clone();
    number3.add_value(Decimal::from(8));
    assert_eq!(number3.to_decimal(), Some(Decimal::new(131456, 3)));
}

#[test]
fn test_cell_sub() {
    let number1 = Cell::from("123.456");
    let number2 = Cell::from("8");
    assert_eq!((&number1 - &number2).to_decimal(), Some(Decimal::new(115456, 3)));
    let mut number3 = number1.clone();
    number3.sub_value(Decimal::from(8));
    assert_eq!(number3.to_decimal(), Some(Decimal::new(115456, 3)));
}

#[test]
fn test_cell_mul() {
    let number1 = Cell::from("123.456");
    let number2 = Cell::from("8");
    assert_eq!((&number1 * &number2).to_decimal(), Some(Decimal::new(987648, 3)));
    let mut number3 = number1.clone();
    number3.mul_value(Decimal::from(8));
    assert_eq!(number3.to_decimal(), Some(Decimal::new(987648, 3)));
}

#[test]
fn test_cell_div() {
    let number1 = Cell::from("123.456");
    let number2 = Cell::from("8");
    assert_eq!((&number1 / &number2).to_decimal(), Some(Decimal::new(15432, 3)));
    assert!((&number1 / &Cell::from("0")).to_decimal().is_none());
    assert!((&number1 / &Cell::from("0")).is_divide_by_zero());
    let mut number3 = number1.clone();
    number3.div_value(Decimal::from(8));
    assert_eq!(number3.to_decimal(), Some(Decimal::new(15432, 3)));
    number3.div_value(Decimal::from(0));
    assert!(number3.to_decimal().is_none());
    assert!(number3.is_divide_by_zero());
}

#[test]
fn test_compare_value_number() {
    let dec_10 = Decimal::from(10);
    let dec_5 = Decimal::from(5);
    let num_10 = Cell::from(dec_10);
    let num_5 = Cell::from(dec_5);

    assert_eq!(num_10.compare_value(&num_5), Some(Ordering::Greater));
    assert_eq!(num_5.compare_value(&num_10), Some(Ordering::Less));
    assert_eq!(num_10.compare_value(&Cell::from("10.0")), Some(Ordering::Equal));

    assert_eq!(num_10.compare_value(&Decimal::from(5)), Some(Ordering::Greater));
    assert_eq!(num_10.compare_value(&Decimal::from(10)), Some(Ordering::Equal));
    assert_eq!(num_10.compare_value(&Decimal::from(20)), Some(Ordering::Less));

    assert_eq!(num_10.compare_value("5"), Some(Ordering::Greater));
    assert_eq!(num_10.compare_value("10.0"), Some(Ordering::Equal));
    assert_eq!(num_10.compare_value("20"), Some(Ordering::Less));

    assert_eq!(num_10.compare_value("abc"), None);
    assert_eq!(num_10.compare_value(&"abc".to_string()), None);
    assert_eq!(num_10.compare_value(&Cell::from("abc")), None);
}

#[test]
fn test_compare_value_text() {
    let str_apple = "apple";
    let str_banana = "banana";
    let text_apple = Cell::from(str_apple);
    let text_banana = Cell::from(str_banana);

    assert_eq!(text_apple.compare_value(&text_banana), Some(Ordering::Less));
    assert_eq!(text_banana.compare_value(&text_apple), Some(Ordering::Greater));
    assert_eq!(text_apple.compare_value(&Cell::Text("apple".to_string())), Some(Ordering::Equal));

    assert_eq!(text_apple.compare_value("banana"), Some(Ordering::Less));
    assert_eq!(text_apple.compare_value("apple"), Some(Ordering::Equal));
    assert_eq!(text_banana.compare_value("apple"), Some(Ordering::Greater));

    assert_eq!(text_apple.compare_value(&"banana".to_string()), Some(Ordering::Less));
    assert_eq!(text_apple.compare_value(&"apple".to_string()), Some(Ordering::Equal));
    assert_eq!(text_banana.compare_value(&"apple".to_string()), Some(Ordering::Greater));

    assert_eq!(text_apple.compare_value(&Cell::from("10")), None);
    assert_eq!(text_apple.compare_value(&Decimal::from(10)), None);
}

#[test]
fn test_equal_value() {
    let dec_10 = Decimal::from(10);
    let dec_5 = Decimal::from(5);
    let num_10 = Cell::from(dec_10);
    let num_5 = Cell::from(dec_5);

    let str_apple = "apple";
    let str_banana = "banana";
    let text_apple = Cell::from(str_apple);
    let text_banana = Cell::from(str_banana);

    assert_eq!(num_10.equal_value(&num_5), false);
    assert_eq!(num_5.equal_value(&num_10), false);
    assert_eq!(num_10.equal_value(&Cell::from("10.0")), true);

    assert_eq!(num_10.equal_value(&Decimal::from(5)), false);
    assert_eq!(num_10.equal_value(&Decimal::from(10)), true);
    assert_eq!(num_10.equal_value(&Decimal::from(20)), false);

    assert_eq!(num_10.equal_value("5"), false);
    assert_eq!(num_10.equal_value("10.0"), true);
    assert_eq!(num_10.equal_value("20"), false);

    assert_eq!(num_10.equal_value("abc"), false);
    assert_eq!(num_10.equal_value(&"abc".to_string()), false);
    assert_eq!(num_10.equal_value(&Cell::from("abc")), false);

    assert_eq!(text_apple.equal_value(&text_banana), false);
    assert_eq!(text_banana.equal_value(&text_apple), false);
    assert_eq!(text_apple.equal_value(&Cell::Text("apple".to_string())), true);

    assert_eq!(text_apple.equal_value("banana"), false);
    assert_eq!(text_apple.equal_value("apple"), true);
    assert_eq!(text_banana.equal_value("apple"), false);

    assert_eq!(text_apple.equal_value(&"banana".to_string()), false);
    assert_eq!(text_apple.equal_value(&"apple".to_string()), true);
    assert_eq!(text_banana.equal_value(&"apple".to_string()), false);

    assert_eq!(text_apple.equal_value(&Cell::from("10")), false);
    assert_eq!(text_apple.equal_value(&Decimal::from(10)), false);
}

#[test]
fn grouped_literals_print_without_grouping() {
    assert_eq!(Cell::from("-12,345,678.901").to_string(), "-12345678.901");
    assert_eq!(Cell::from("12,345,678").to_string(), "12345678");
    assert_eq!(Cell::from("+1,234").to_string(), "1234");
    assert_eq!(Cell::from(".5").to_string(), "0.5");
    assert_eq!(Cell::from("-.5").to_string(), "-0.5");
    assert_eq!(Cell::from("007.50").to_string(), "7.50");
    assert_eq!(Cell::from("-0").to_string(), "0");
    assert_eq!(Cell::from("0.000").to_string(), "0.000");
    assert!(Cell::from("1,234.5").is_number());
}

#[test]
fn non_numeric_literals_stay_text() {
    for s in ["1234.56.78", "-12,34,567,8.901", "\"-123,456,781\"", "", "-", "+", ".", "5.", "1,2345", ",123", "1_000", "1e5", " 1"] {
        let cell = Cell::from(s);
        assert!(cell.is_text(), "{:?}", s);
        assert_eq!(cell.to_string(), s);
    }
}

#[test]
fn literal_too_large_for_a_decimal_stays_text() {
    let s = "123456789012345678901234567890";
    assert!(Cell::from(s).is_text());
    assert_eq!(Cell::from(s).to_string(), s);
    assert!(Cell::from("79228162514264337593543950335").is_number());
}

#[test]
fn divide_by_zero_sentinel_is_kept() {
    let sentinel = &Cell::from("1") / &Cell::from("0");
    assert_eq!(sentinel.to_string(), "#DIV/0");
    assert!(sentinel.is_text());
    assert_eq!((&sentinel / &Cell::from("0")).to_string(), "#DIV/0");
    assert_eq!((&sentinel / &Cell::from("3")).to_string(), "#DIV/0");
    let mut again = sentinel.clone();
    again.div_value(Decimal::from(0));
    again.div_value(Decimal::from(7));
    assert_eq!(again.to_string(), "#DIV/0");
    assert!(again.is_divide_by_zero());
    let mut text = Cell::from("abc");
    text.div_value(Decimal::from(0));
    assert_eq!(text.to_string(), "abc");
    assert!(!Cell::from("5").is_divide_by_zero());
}

#[test]
fn text_operands_pass_the_left_operand_through() {
    let n = Cell::from("4");
    let t = Cell::from("a");
    assert_eq!((&n + &t).to_string(), "4");
    assert_eq!((&t + &n).to_string(), "a");
    assert_eq!((&t - &n).to_string(), "a");
    assert_eq!((&t * &n).to_string(), "a");
    assert_eq!((&t / &Cell::from("0")).to_string(), "a");
    let mut m = Cell::from("x");
    m.add_value(Decimal::from(1));
    m.mul_value(Decimal::from(3));
    assert_eq!(m.to_string(), "x");
}

#[test]
fn overflow_leaves_the_left_operand() {
    let max = Cell::from("79228162514264337593543950335");
    assert_eq!((&max + &Cell::from("1")).to_string(), "79228162514264337593543950335");
    let mut m = max.clone();
    m.mul_value(Decimal::from(10));
    assert_eq!(m.to_string(), "79228162514264337593543950335");
}

#[test]
fn decimal_values_and_scales() {
    assert_eq!(Decimal::new(1234567, 2), Decimal::new(12345670, 3));
    assert_eq!(Cell::from(Decimal::new(-5, 3)).to_string(), "-0.005");
    assert_eq!(Cell::from(Decimal::new(120, 1)).to_string(), "12.0");
    assert_eq!(Cell::from(Decimal::from(-7i64)).to_string(), "-7");
    assert_eq!((&Cell::from("1.5") - &Cell::from("1.5")).to_decimal(), Some(Decimal::from(0)));
    assert!(Decimal::new(0, 4).is_zero());
    assert_eq!(Cell::default().to_string(), "");
}

#[test]
fn texts_compare_by_characters() {
    assert_eq!(Cell::from("ab").compare_value("abc"), Some(Ordering::Less));
    assert_eq!(Cell::from("b").compare_value("abc"), Some(Ordering::Greater));
    assert_eq!(Cell::from("").compare_value(""), Some(Ordering::Equal));
    assert_eq!(Cell::from("Z").compare_value("a"), Some(Ordering::Less));
    assert_eq!(Cell::from("é").compare_value("z"), Some(Ordering::Greater));
    assert_eq!(Cell::from("-1").compare_value("-0.5"), Some(Ordering::Less));
}
