use tablefi::{Cell, Decimal, Slice};

#[test]
fn test_string() {
    let vec = vec!["1", "2", "3"];
    let slice = Slice::from(vec.clone());
    assert_eq!(slice.len(), 3);
    assert_eq!(slice.cell(1).to_string(), "2".to_string());
}

#[test]
fn test_decimal() {
    let vec = vec![Decimal::from(1), Decimal::from(2), Decimal::from(3)];
    let slice = Slice::from(vec.clone());
    assert_eq!(slice.len(), 3);
    assert_eq!(TryInto::<Decimal>::try_into(slice.cell(1)).unwrap(), Decimal::from(2));
}

#[test]
fn slice_test_json() {
    let slice: Slice = Slice::try_from(r#"["a","b","1"]"#).unwrap();
    assert_eq!(slice.len(), 3);
    assert_eq!(slice.cell(0).to_string(), "a".to_string());
    assert_eq!(slice.cell(1).to_string(), "b".to_string());
    assert_eq!(slice.cell(2).to_string(), "1".to_string());
    assert_eq!(slice.cell(2).to_decimal(), Some(Decimal::from(1)));
    assert_eq!(slice.to_string(), r#"["a","b","1"]"#);
}

#[test]
fn slice_test_mut_cell() {
    let mut slice: Slice = Slice::try_from(r#"["a","b","1"]"#).unwrap();
    let cell = slice.mut_cell(1).unwrap();
    cell.replace_value(&Cell::from("c"));
    assert_eq!(slice.to_string(), r#"["a","c","1"]"#);
}

#[test]
fn slice_test_add() {
    let slice1: Slice = Slice::try_from(r#"["1","2","3"]"#).unwrap();
    let slice2: Slice = Slice::try_from(r#"["4","5","6"]"#).unwrap();
    let mut slice3 = &slice1 + &slice2;
    assert_eq!(slice3.to_string(), r#"["5","7","9"]"#);
    slice3.add_value(Decimal::from(1));
    assert_eq!(slice3.to_string(), r#"["6","8","10"]"#);
    let slice4: Slice = Slice::try_from(r#"["4","a","6"]"#).unwrap();
    let mut slice5 = &slice1 + &slice4;
    assert_eq!(slice5.to_string(), r#"["5","2","9"]"#);
    slice5 = &slice4 + &slice1;
    assert_eq!(slice5.to_string(), r#"["5","a","9"]"#);
    slice5.add_value(Decimal::from(1));
    assert_eq!(slice5.to_string(), r#"["6","a","10"]"#);
}

#[test]
fn test_sub() {
    let slice1: Slice = Slice::try_from(r#"["1","2","3"]"#).unwrap();
    let slice2: Slice = Slice::try_from(r#"["4","7","10"]"#).unwrap();
    let mut slice3 = &slice1 - &slice2;
    assert_eq!(slice3.to_string(), r#"["-3","-5","-7"]"#);
    slice3.sub_value(Decimal::from(1));
    assert_eq!(slice3.to_string(), r#"["-4","-6","-8"]"#);
    let slice4: Slice = Slice::try_from(r#"["4","a","7"]"#).unwrap();
    let mut slice5 = &slice1 - &slice4;
    assert_eq!(slice5.to_string(), r#"["-3","2","-4"]"#);
    slice5 = &slice4 - &slice1;
    assert_eq!(slice5.to_string(), r#"["3","a","4"]"#);
    slice5.sub_value(Decimal::from(1));
    assert_eq!(slice5.to_string(), r#"["2","a","3"]"#);
}

#[test]
fn test_mul() {
    let slice1: Slice = Slice::try_from(r#"["1","2","3"]"#).unwrap();
    let slice2: Slice = Slice::try_from(r#"["2","3","4"]"#).unwrap();
    let mut slice3 = &slice1 * &slice2;
    assert_eq!(slice3.to_string(), r#"["2","6","12"]"#);
    slice3.mul_value(Decimal::from(2));
    assert_eq!(slice3.to_string(), r#"["4","12","24"]"#);
    let slice4: Slice = Slice::try_from(r#"["4","a","5"]"#).unwrap();
    let mut slice5 = &slice1 * &slice4;
    assert_eq!(slice5.to_string(), r#"["4","2","15"]"#);
    slice5 = &slice4 * &slice1;
    assert_eq!(slice5.to_string(), r#"["4","a","15"]"#);
    slice5.mul_value(Decimal::from(2));
    assert_eq!(slice5.to_string(), r#"["8","a","30"]"#);
}

#[test]
fn test_div() {
    let slice1: Slice = Slice::try_from(r#"["1","2","3"]"#).unwrap();
    let slice2: Slice = Slice::try_from(r#"["2","8","15"]"#).unwrap();
    let mut slice3 = &slice1 / &slice2;
    assert_eq!(slice3.to_string(), r#"["0.50","0.25","0.20"]"#);
    slice3.div_value(Decimal::from(2));
    assert_eq!(slice3.to_string(), r#"["0.25","0.1250","0.10"]"#);
    let slice4: Slice = Slice::try_from(r#"["4","a","6"]"#).unwrap();
    let mut slice5 = &slice1 / &slice4;
    assert_eq!(slice5.to_string(), r#"["0.25","2","0.50"]"#);
    slice5 = &slice4 / &slice1;
    assert_eq!(slice5.to_string(), r#"["4","a","2"]"#);
    slice5.div_value(Decimal::from(2));
    assert_eq!(slice5.to_string(), r#"["2","a","1"]"#);
    slice5.div_value(Decimal::from(0));
    assert_eq!(slice5.to_string(), r##"["#DIV/0","a","#DIV/0"]"##);
}

#[test]
fn test_iter_method() {
    let slice: Slice = Slice::try_from(r#"["10","20","hello"]"#).unwrap();
    let mut iter = slice.iter();
    assert_eq!(iter.next(), Some(&Cell::from("10")));
    assert_eq!(iter.next(), Some(&Cell::from("20")));
    assert_eq!(iter.next(), Some(&Cell::from("hello")));
    assert_eq!(iter.next(), None);
}

#[test]
fn test_into_iterator() {
    let slice: Slice = Slice::try_from(r#"["1","2"]"#).unwrap();
    let mut collected_cells = Vec::new();
    for cell_ref in &slice {
        collected_cells.push(cell_ref.clone());
    }
    assert_eq!(collected_cells, vec![Cell::from("1"), Cell::from("2")]);
}

#[test]
fn test_into_iterator_consuming() {
    let slice: Slice = Slice::try_from(r#"["a","b"]"#).unwrap();
    let cells: Vec<Cell> = slice.into_iter().collect();
    assert_eq!(cells, vec![Cell::from("a"), Cell::from("b")]);
}

#[test]
fn test_iter_mut_and_into_iterator_mut() {
    let mut slice: Slice = Slice::try_from(r#"["10","str","20"]"#).unwrap();

    for cell_mut_ref in slice.iter_mut() {
        if cell_mut_ref.to_decimal().is_some() {
            cell_mut_ref.add_value(Decimal::from(1));
        }
    }
    assert_eq!(slice.to_string(), r#"["11","str","21"]"#);

    for cell_mut_ref in &mut slice {
        if cell_mut_ref.to_decimal().is_some() {
            cell_mut_ref.mul_value(Decimal::from(2));
        }
    }
    assert_eq!(slice.to_string(), r#"["22","str","42"]"#);
}

#[test]
fn slices_of_unequal_length() {
    let short = Slice::from(vec!["1", "2"]);
    let long = Slice::from(vec!["10", "20", "30"]);
    assert_eq!((&short + &long).to_string(), r#"["11","22"]"#);
    assert_eq!((&long + &short).to_string(), r#"["11","22","30"]"#);
    assert_eq!((&long * &short).to_string(), r#"["10","40","30"]"#);
    assert_eq!((&long / &Slice::new()).to_string(), r#"["10","20","30"]"#);
    assert_eq!((&long - &short).len(), 3);
}

#[test]
fn slice_division_by_zero_cells() {
    let a = Slice::from(vec!["1", "x", "3"]);
    let b = Slice::from(vec!["0", "0", "2"]);
    assert_eq!((&a / &b).to_string(), r##"["#DIV/0","x","1.50"]"##);
}

#[test]
fn slice_conversions() {
    let s = Slice::from(vec![Cell::from("a"), Cell::from("1")]);
    let cells: Vec<Cell> = s.clone().into();
    assert_eq!(cells, vec![Cell::from("a"), Cell::from("1")]);
    let s = Slice::from(vec!["1,000".to_string(), "b".to_string()]);
    assert_eq!(s.to_string(), r#"["1000","b"]"#);
    assert!(Slice::default().len() == 0);
    let mut s = Slice::from(vec!["1"]);
    assert!(s.mut_cell(1).is_none());
}
