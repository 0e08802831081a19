use driveway_filter::order::{compare, str_eq, Order};

fn order_of_std(a: &str, b: &str) -> Order {
    if a < b {
        Order::Before
    } else if a == b {
        Order::Same
    } else {
        Order::After
    }
}

#[test]
fn compare_agrees_with_the_order_of_str() {
    let words = [
        "", "a", "A", "aa", "ab", "b", "access", "acces", "accessible", "service", "é", "e", "z", "~", "\u{7f}",
        "\u{80}", "\u{7ff}", "\u{800}", "\u{ffff}", "\u{10000}", "\u{10ffff}", "日本", "日", "a\u{0}", "a ",
    ];
    for a in words {
        for b in words {
            assert_eq!(compare(a, b), order_of_std(a, b), "{:?} {:?}", a, b);
            assert_eq!(str_eq(a, b), a == b, "{:?} {:?}", a, b);
        }
    }
}

#[test]
fn a_prefix_comes_before() {
    assert_eq!(compare("drive", "driveway"), Order::Before);
    assert_eq!(compare("driveway", "drive"), Order::After);
    assert_eq!(compare("", "a"), Order::Before);
    assert_eq!(compare("", ""), Order::Same);
}

#[test]
fn equal_strings_are_the_same() {
    assert!(str_eq("barrier", "barrier"));
    assert!(!str_eq("barrier", "Barrier"));
    assert!(!str_eq("barrier", "barrier "));
    assert!(!str_eq("barrie", "barrier"));
    assert!(str_eq("", ""));
}
