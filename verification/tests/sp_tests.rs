use pubsub_batch::sp::{create_from_1, create_from_2, usage, OwnOrNot, Type1, Type2};

#[test]
fn an_owned_value_is_handed_back() {
    let holder = OwnOrNot::from_own(String::from("hello"));
    assert_eq!(holder.get(), "hello");
    assert!(matches!(holder, OwnOrNot::Own(_)));
}

#[test]
fn a_borrowed_value_is_handed_back() {
    let value = String::from("hello");
    let holder = OwnOrNot::from_ref(&value);
    assert_eq!(holder.get(), "hello");
    assert!(matches!(holder, OwnOrNot::Not(_)));
}

#[test]
fn create_from_1_borrows_the_request() {
    let t1 = Type1 { request: String::from("tata") };
    let holder = create_from_1(&t1);
    assert_eq!(holder.get(), "tata");
    assert!(matches!(holder, OwnOrNot::Not(_)));
}

#[test]
fn create_from_2_owns_a_fresh_value() {
    let t2 = Type2 {};
    let holder = create_from_2(&t2);
    assert_eq!(holder.get(), "toto");
    assert!(matches!(holder, OwnOrNot::Own(_)));
}

#[test]
fn usage_walks_both_paths() {
    usage();
}
