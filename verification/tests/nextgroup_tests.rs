use recipe::nextgroup::{next_group, nextpressi, NextPress};

fn rejected(from: &str, to: &str) -> (u32, String) {
    match nextpressi(from.to_string(), to.to_string()) {
        NextPress::Rejected(c, m) => (c, m),
        NextPress::Accepted(f, t) => panic!("accepted {} {}", f, t),
    }
}

#[test]
fn from_field_errors() {
    assert_eq!(rejected("", "16"), (1, "********* List: From has no value **********".to_string()));
    assert_eq!(rejected("x", "16"), (2, "********* List: From is not an integer **********".to_string()));
    assert_eq!(rejected("-99", "16"), (2, "********* List: From is not an integer **********".to_string()));
    assert_eq!(rejected("0", "16"), (3, "********* List: From not positive integer **********".to_string()));
    assert_eq!(rejected("-4", "16"), (3, "********* List: From not positive integer **********".to_string()));
}

#[test]
fn to_field_errors() {
    assert_eq!(rejected("1", ""), (4, "********* List: To has no value **********".to_string()));
    assert_eq!(rejected("1", "ten"), (5, "********* List: To is not an integer **********".to_string()));
    assert_eq!(rejected("1", "0"), (6, "********* List: To not positive integer **********".to_string()));
    assert_eq!(rejected("5", "4"), (7, "********* List: From Greater than To **********".to_string()));
}

#[test]
fn range_accepted() {
    match nextpressi("1".to_string(), "16".to_string()) {
        NextPress::Accepted(f, t) => assert_eq!((f, t), (1, 16)),
        _ => panic!("refused"),
    }
    match nextpressi("+3".to_string(), "3".to_string()) {
        NextPress::Accepted(f, t) => assert_eq!((f, t), (3, 3)),
        _ => panic!("refused"),
    }
}

fn listing(count: usize) -> Option<(u32, String, Vec<String>)> {
    Some((0, "ok".to_string(), (0..count).map(|i| format!("{}.jpg", i)).collect()))
}

#[test]
fn next_group_outcomes() {
    assert_eq!(
        next_group(1, 16, None),
        (8, "the directory does not exist".to_string(), " ".to_string(), " ".to_string())
    );
    assert_eq!(next_group(1, i32::MAX, None).0, 8);
    assert_eq!(
        next_group(1, 16, Some((1, "none here".to_string(), vec![]))),
        (10, "none here".to_string(), " ".to_string(), " ".to_string())
    );
    assert_eq!(
        next_group(1, 16, listing(16)),
        (
            9,
            "********* List: From 17 Greater than number of files of 16 **********".to_string(),
            " ".to_string(),
            " ".to_string()
        )
    );
    assert_eq!(next_group(1, 16, listing(17)), (0, " ".to_string(), "17".to_string(), "32".to_string()));
    assert_eq!(next_group(5, 7, listing(100)), (0, " ".to_string(), "8".to_string(), "10".to_string()));
}

#[test]
fn next_group_chains_with_same_width() {
    let (code, _, f, t) = next_group(3, 10, listing(50));
    assert_eq!(code, 0);
    match nextpressi(f, t) {
        NextPress::Accepted(a, b) => {
            assert_eq!((a, b), (11, 18));
            assert_eq!(b - a, 10 - 3);
        }
        _ => panic!("refused"),
    }
}
