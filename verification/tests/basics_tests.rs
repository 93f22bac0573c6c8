use rust_lessons::basics::{
    introduce_if_else, introduce_mutability, introduce_option, p0_introduce_prints,
    p1_introduce_basic_types, p2_introduce_vec_and_array, p3_introduce_string,
    this_is_a_function, Person, RGB,
};

#[test]
fn prints_write_basics_twice() {
    assert_eq!(p0_introduce_prints(), "Basics\nBasics\n");
}

#[test]
fn basic_types_give_the_byte_of_a() {
    assert_eq!(p1_introduce_basic_types(), vec![97u8]);
    assert_eq!(p1_introduce_basic_types(), b"a".to_vec());
}

#[test]
fn slices_hold_three_to_eight() {
    let (of_array, of_vec) = p2_introduce_vec_and_array();
    assert_eq!(of_array, vec![3, 4, 5, 6, 7, 8]);
    assert_eq!(of_vec, vec![3, 4, 5, 6, 7, 8]);
}

#[test]
fn string_lesson_writes_the_string_and_its_slice() {
    assert_eq!(p3_introduce_string(), "s2: Hello,String!\ns_str: ello\n");
}

#[test]
fn mutability_changes_only_the_mutable_binding() {
    assert_eq!(introduce_mutability(), (42, 43));
}

#[test]
fn colours_are_three() {
    assert_ne!(RGB::Red, RGB::Green);
    assert_ne!(RGB::Green, RGB::Blue);
    assert_ne!(RGB::Blue, RGB::Red);
}

#[test]
fn new_person_is_john() {
    let p: Person = Person::new();
    assert_eq!(p.id, 42);
    assert_eq!(p.name, "John");
    assert_eq!(p.age, 20);
    assert_eq!(p.description, Some("Hello, I am John!".to_string()));
}

#[test]
fn get_name_gives_the_name() {
    let p: Person = Person::new();
    assert_eq!(p.get_name(), "John");
    let q: Person = Person { id: 1, name: "Ada".to_string(), age: 36, description: None };
    assert_eq!(q.get_name(), "Ada");
}

#[test]
fn get_desciption_says_whether_there_is_one() {
    let p: Person = Person::new();
    assert_eq!(p.get_desciption(), "The person's have description");
    let q: Person = Person { id: 1, name: "Ada".to_string(), age: 36, description: None };
    assert_eq!(q.get_desciption(), "The person have no description!");
    let r: Person =
        Person { id: 2, name: "Bob".to_string(), age: 7, description: Some(String::new()) };
    assert_eq!(r.get_desciption(), "The person's have description");
}

#[test]
fn option_holds_one_or_nothing() {
    assert_eq!(introduce_option(), (Some(1), None));
}

#[test]
fn if_else_writes_what_demo_contains() {
    assert_eq!(introduce_if_else(), "demo contains: This is a message\n");
}

#[test]
fn function_returns_one_where_b_holds() {
    assert_eq!(this_is_a_function("text".to_string(), true), (1, String::new()));
}

#[test]
fn function_writes_and_returns_forty_two_otherwise() {
    assert_eq!(this_is_a_function("text".to_string(), false), (42, "text\n".to_string()));
    assert_eq!(this_is_a_function(String::new(), false), (42, "\n".to_string()));
}
