use proof_codec::error::Error;
use proof_codec::point::{g1_strings_to_vec, g2_strings_to_vec, split_g1, split_g2};
use proof_codec::text::{chars_of, replace, CharClass};

fn strings(items: &[&str]) -> Vec<String> {
    items.iter().map(|s| s.to_string()).collect()
}

#[test]
fn split_g1_of_one_two() {
    assert_eq!(split_g1("(1, 2)".to_string()), Ok(strings(&["1", "2"])));
}

#[test]
fn split_g1_trims_brackets_and_white_space() {
    assert_eq!(split_g1("((  12 ,\t34\n))".to_string()), Ok(strings(&["12", "34"])));
    assert_eq!(split_g1("1,2".to_string()), Ok(strings(&["1", "2"])));
    assert_eq!(split_g1("(1, 2, 3)".to_string()), Ok(strings(&["1", "2"])));
    assert_eq!(split_g1("(, 2)".to_string()), Ok(strings(&["", "2"])));
    assert_eq!(split_g1("(\u{2003}7\u{a0}, 8\u{3000})".to_string()), Ok(strings(&["7", "8"])));
}

#[test]
fn split_g1_matches_the_standard_library() {
    for text in ["(1, 2)", "()(a ,b),c)(", " ( 1 , 2 ) ", ",", "(x(y, z)w)", "(é, ü)"] {
        let parts: Vec<&str> = text.trim_matches(|c| c == '(' || c == ')').split(',').collect();
        let expected = vec![parts[0].trim().to_string(), parts[1].trim().to_string()];
        assert_eq!(split_g1(text.to_string()), Ok(expected));
    }
}

#[test]
fn split_g1_without_comma_fails() {
    assert_eq!(split_g1("(1 2)".to_string()), Err(Error::UnrecognizedPointFormat));
    assert_eq!(split_g1("".to_string()), Err(Error::UnrecognizedPointFormat));
    assert_eq!(split_g1("infinity".to_string()), Err(Error::UnrecognizedPointFormat));
}

#[test]
fn split_g2_orders_imaginary_before_real() {
    let text = "(QuadExtField(10 + 11 * u), QuadExtField(20 + 21 * u))";
    assert_eq!(split_g2(text.to_string()), Ok(strings(&["11", "10", "21", "20"])));
}

#[test]
fn split_g2_of_long_coordinates() {
    let text = "(QuadExtField(6375614351688725206403948262868962793625744043794305715222011528459656738731 + 4252822878758300859123897981450591353533073413197771768651442665752259397132 * u), QuadExtField(10505242626370262277552901082094356697409835680220590971873171140371331206856 + 21847035105528745403288232691147584728191162732299865338377159692350059136679 * u))";
    assert_eq!(
        split_g2(text.to_string()),
        Ok(strings(&[
            "4252822878758300859123897981450591353533073413197771768651442665752259397132",
            "6375614351688725206403948262868962793625744043794305715222011528459656738731",
            "21847035105528745403288232691147584728191162732299865338377159692350059136679",
            "10505242626370262277552901082094356697409835680220590971873171140371331206856",
        ]))
    );
}

#[test]
fn split_g2_tolerates_extra_third_operand() {
    let text = "(QuadExtField(1 + 2 * u + 9), QuadExtField( 3  +  4 * u * u))";
    assert_eq!(split_g2(text.to_string()), Ok(strings(&["2", "1", "4", "3"])));
}

#[test]
fn split_g2_without_delimiters_fails() {
    assert_eq!(split_g2("(1, 2)".to_string()), Err(Error::UnrecognizedPointFormat));
    assert_eq!(
        split_g2("(QuadExtField(1 + 2 * u))".to_string()),
        Err(Error::UnrecognizedPointFormat)
    );
    assert_eq!(
        split_g2("(QuadExtField(1, 2 * u), QuadExtField(3 + 4 * u))".to_string()),
        Err(Error::UnrecognizedPointFormat)
    );
    assert_eq!(
        split_g2("(QuadExtField(1 + 2 * u), QuadExtField(3 - 4 * u))".to_string()),
        Err(Error::UnrecognizedPointFormat)
    );
    assert_eq!(
        split_g2(
            "(QuadExtField(1 + 2 * u), QuadExtField(3 + 4 * u), QuadExtField(5 + 6 * u))"
                .to_string()
        ),
        Err(Error::UnrecognizedPointFormat)
    );
    assert_eq!(split_g2("".to_string()), Err(Error::UnrecognizedPointFormat));
}

#[test]
fn g1_strings_become_two_blocks() {
    let g1 = g1_strings_to_vec(strings(&["1", "258"])).unwrap();
    assert_eq!(g1.len(), 2);
    let mut one = vec![0u8; 32];
    one[31] = 1;
    let mut other = vec![0u8; 32];
    other[30] = 1;
    other[31] = 2;
    assert_eq!(g1, vec![one, other]);
    assert_eq!(g1_strings_to_vec(strings(&["1", ""])), Err(Error::MalformedInteger));
    assert_eq!(g1_strings_to_vec(strings(&["x", "2"])), Err(Error::MalformedInteger));
}

#[test]
fn g2_strings_become_two_pairs() {
    let g2 = g2_strings_to_vec(strings(&["1", "2", "3", "4"])).unwrap();
    let block = |v: u8| {
        let mut b = vec![0u8; 32];
        b[31] = v;
        b
    };
    assert_eq!(g2, vec![vec![block(1), block(2)], vec![block(3), block(4)]]);
    assert_eq!(g2_strings_to_vec(strings(&["1", "2", "3", "-4"])), Err(Error::MalformedInteger));
}

#[test]
fn replace_matches_the_standard_library() {
    let cases = [
        ("hello world", "o", "0"),
        ("aaaa", "aa", "b"),
        ("aaa", "aa", "b"),
        ("abcabc", "abc", ""),
        ("abc", "abcd", "x"),
        ("", "a", "b"),
        ("abc", "", "x-"),
        ("x proof_a y proof_a", "proof_a", "1, 2, 3"),
        ("ünïcödé ü", "ü", "ue"),
        ("ababab", "abab", "_"),
        ("zeroes and zero_u32", "zero", "0"),
    ];
    for (text, from, to) in cases {
        if from.is_empty() {
            assert_eq!(replace(text, from, to), text);
        } else {
            assert_eq!(replace(text, from, to), text.replace(from, to));
        }
    }
}

#[test]
fn chars_are_collected_in_order() {
    assert_eq!(chars_of("aé("), vec!['a', 'é', '(']);
    assert_eq!(chars_of(""), Vec::<char>::new());
}

#[test]
fn white_space_is_that_of_the_standard_library() {
    for code in 0u32..=0x10FFFF {
        if let Some(c) = char::from_u32(code) {
            assert_eq!(CharClass::Whitespace.has(c), c.is_whitespace(), "U+{:04X}", code);
        }
    }
}

#[test]
fn bracket_classes() {
    assert!(CharClass::Paren.has('('));
    assert!(CharClass::Paren.has(')'));
    assert!(!CharClass::Paren.has('['));
    assert!(CharClass::CloseParen.has(')'));
    assert!(!CharClass::CloseParen.has('('));
}

fn split_g2_by_the_standard_library(data: &str) -> Vec<String> {
    let trimmed_input = data.trim_matches(|c| c == '(' || c == ')');
    let parts: Vec<&str> = trimmed_input.split("), QuadExtField(").collect();
    let mut results = Vec::new();
    for part in parts {
        let cleaned = part.trim_start_matches("QuadExtField(").trim_end_matches(')');
        let sub_parts: Vec<&str> = cleaned.split(" + ").collect();
        let first_value = sub_parts[0].trim();
        let second_value = sub_parts[1].trim().trim_end_matches(" * u");
        results.push(second_value.to_string());
        results.push(first_value.to_string());
    }
    results
}

#[test]
fn split_g2_matches_the_standard_library() {
    let cases = [
        "(QuadExtField(10 + 11 * u), QuadExtField(20 + 21 * u))",
        "QuadExtField(1 + 2 * u), QuadExtField(3 + 4 * u)",
        "((QuadExtField(QuadExtField( 1  +  2 * u * u))), QuadExtField(3 + 4 * u + 5 * u)))",
        "( + ), QuadExtField( + )",
        "(QuadExtField( + 7 * u), QuadExtField(8 +  * u))",
        "(QuadExtField(é + ü * u), QuadExtField(\u{a0}1\u{a0} + \t2 * u\n))",
        "x + y), QuadExtField(z + w * u * ",
    ];
    for text in cases {
        let expected = split_g2_by_the_standard_library(text);
        assert_eq!(expected.len(), 4);
        assert_eq!(split_g2(text.to_string()), Ok(expected), "{}", text);
    }
}

#[test]
fn split_g2_of_a_zero_imaginary_part_keeps_the_unit() {
    // the proving library writes zero as an empty text
    let text = "(QuadExtField(5 +  * u), QuadExtField(6 + 7 * u))";
    assert_eq!(split_g2(text.to_string()), Ok(strings(&["* u", "5", "7", "6"])));
    assert_eq!(
        g2_strings_to_vec(split_g2(text.to_string()).unwrap()),
        Err(Error::MalformedInteger)
    );
}
