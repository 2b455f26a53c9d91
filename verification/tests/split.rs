use reborn::split::{
    split_once, split_once_maybe, split_quice, split_quice_maybe, split_thrice, split_thrice_maybe, split_twice,
    split_twice_maybe,
};

#[test]
fn split_once_cuts_at_first_separator() {
    assert_eq!(split_once("a=b=c", "="), Some(("a", "b=c")));
    assert_eq!(split_once("abc", "="), None);
    assert_eq!(split_once("=x", "="), Some(("", "x")));
    assert_eq!(split_once("key::value", "::"), Some(("key", "value")));
}

#[test]
fn split_once_with_empty_separator_splits_before_everything() {
    assert_eq!(split_once("abc", ""), Some(("", "abc")));
}

#[test]
fn split_more_pieces() {
    assert_eq!(split_twice("a=b=c", "="), Some(("a", "b", "c")));
    assert_eq!(split_twice("a=b", "="), None);
    assert_eq!(split_thrice("a,b,c,d,e", ","), Some(("a", "b", "c", "d,e")));
    assert_eq!(split_thrice("a,b,c", ","), None);
    assert_eq!(split_quice("1 2 3 4 5 6", " "), Some(("1", "2", "3", "4", "5 6")));
    assert_eq!(split_quice("1 2 3 4", " "), None);
}

#[test]
fn split_maybe_keeps_what_was_found() {
    assert_eq!(split_once_maybe("abc", "="), (Some("abc"), None));
    assert_eq!(split_once_maybe("a=b", "="), (Some("a"), Some("b")));
    assert_eq!(split_twice_maybe("a=b", "="), (Some("a"), Some("b"), None));
    assert_eq!(split_twice_maybe("a", "="), (Some("a"), None, None));
    assert_eq!(split_thrice_maybe("a=b=c=d=e", "="), (Some("a"), Some("b"), Some("c"), Some("d=e")));
    assert_eq!(split_thrice_maybe("a=b", "="), (Some("a"), Some("b"), None, None));
    assert_eq!(
        split_quice_maybe("a=b=c=d=e=f", "="),
        (Some("a"), Some("b"), Some("c"), Some("d"), Some("e=f"))
    );
    assert_eq!(split_quice_maybe("a=b=c", "="), (Some("a"), Some("b"), Some("c"), None, None));
}

#[test]
fn pieces_rejoin_to_the_text() {
    let s = "net/minecraft/world/World";
    let (a, b, c, d) = split_thrice(s, "/").unwrap();
    assert_eq!(format!("{}/{}/{}/{}", a, b, c, d), s);
}

#[test]
fn split_thrice_parts_rejoin_and_hold_no_separator() {
    let s = "a::b::c::d::e";
    let (a, b, c, d) = split_thrice(s, "::").unwrap();
    assert_eq!(format!("{a}::{b}::{c}::{d}"), s);
    assert!(!a.contains("::") && !b.contains("::") && !c.contains("::"));
    assert_eq!(d, "d::e");
}
