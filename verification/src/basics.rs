//! The first lesson: printing, the basic types, arrays and vectors, strings,
//! mutability and shadowing, enums and structs, `Option`, `if` and functions.
//!
//! A function that writes to the screen returns the text it writes; one that
//! only binds values returns the values that matter.

use crate::text::write_line;
use vstd::prelude::*;
use vstd::string::StrSliceExecFns;

verus! {

/// `Mutex` of the standard library, which the lesson on shadowing wraps a
/// string in. Trusted as an opaque type: nothing is known of what it holds.
#[verifier::external_type_specification]
#[verifier::external_body]
#[verifier::reject_recursive_types(T)]
pub struct ExMutex<T: ?Sized>(std::sync::Mutex<T>);

/// Trusted: `Mutex::new` of the standard library. Nothing is claimed of the
/// mutex it returns.
pub assume_specification<T>[ std::sync::Mutex::<T>::new ](t: T) -> (m: std::sync::Mutex<T>)
;

/// Printing: `print!` writes the text as it is, `println!` adds a line feed.
/// Returns what the two together write.
pub fn p0_introduce_prints() -> (out: String)
    ensures
        out@ == "Basics\nBasics\n"@,
{
    let mut out = String::new();
    out.push_str("Basics\n");
    write_line(&mut out, "Basics");
    proof {
        reveal_strlit("Basics\n");
        reveal_strlit("Basics");
        reveal_strlit("Basics\nBasics\n");
    }
    assert(out@ =~= "Basics\nBasics\n"@);
    out
}

/// Integer types carry their width in their name, `bool` is `true` or
/// `false`, and a byte is a `u8`. Returns the bytes of the text `a`.
#[allow(unused)]
pub fn p1_introduce_basic_types() -> (bytes: Vec<u8>)
    ensures
        bytes@ == seq![97u8],
{
    let a_dec: i32;
    let a_def: u64 = 42;

    let b_t: bool = true;
    let b_f: bool = false;

    let char_u8: &[u8] = "a".as_bytes();
    proof {
        reveal_strlit("a");
        assert(vstd::string::is_ascii("a"));
    }
    assert(char_u8@ =~= seq![97u8]);
    vstd::slice::slice_to_vec(char_u8)
}

/// Arrays have a fixed size, vectors grow, and a slice refers to a run of
/// either. Returns the items at `3..9` of an array and of a vector that both
/// count from 0 to 9.
#[allow(unused)]
pub fn p2_introduce_vec_and_array() -> (slices: (Vec<i32>, Vec<i32>))
    ensures
        slices.0@ == seq![3i32, 4, 5, 6, 7, 8],
        slices.1@ == seq![3i32, 4, 5, 6, 7, 8],
{
    let a_array: [i32; 10] = [0; 10];

    let a_vec: Vec<i32> = Vec::new();
    let a_vec_another_initialization: Vec<i32> = vec![1, 2, 3];

    let array_demo: [i32; 10] = [0, 1, 2, 3, 4, 5, 6, 7, 8, 9];
    let vec_demo: Vec<i32> = vec![0, 1, 2, 3, 4, 5, 6, 7, 8, 9];

    let array_refer: &[i32] = &array_demo[3..9];
    let vec_refer: &[i32] = &vec_demo[3..9];
    assert(array_refer@ =~= seq![3i32, 4, 5, 6, 7, 8]);
    assert(vec_refer@ =~= seq![3i32, 4, 5, 6, 7, 8]);
    (vstd::slice::slice_to_vec(array_refer), vstd::slice::slice_to_vec(vec_refer))
}

/// `String` owns its text, `&str` refers to text held elsewhere. Returns
/// the two lines that the lesson writes: a string, and a slice of it.
#[allow(unused)]
pub fn p3_introduce_string() -> (out: String)
    ensures
        out@ == "s2: Hello,String!\ns_str: ello\n"@,
{
    let mut out = String::new();
    let s: String = String::new();
    let s1 = String::new();
    let s2 = "Hello,String!".to_string();
    out.push_str("s2: ");
    write_line(&mut out, s2.as_str());

    proof {
        reveal_strlit("Hello,String!");
    }
    let s_str: &str = s2.as_str().substring_ascii(1, 5);
    out.push_str("s_str: ");
    write_line(&mut out, s_str);

    let s_static: &'static str =
        "This is a static value hard-coded in source file and should be compiled
        into the target file, where this piece of value you see should be located
        in ro-data section (read-only section), s_static refer to it.";
    proof {
        reveal_strlit("s2: ");
        reveal_strlit("s_str: ");
        reveal_strlit("s2: Hello,String!\ns_str: ello\n");
    }
    assert(out@ =~= "s2: Hello,String!\ns_str: ello\n"@);
    out
}

/// A binding cannot be assigned to unless it is declared `mut`; a new `let`
/// may reuse a name for a value of another type. Returns the value of the
/// binding that stayed as it was and of the one that was assigned to.
#[allow(unused)]
pub fn introduce_mutability() -> (pair: (i32, i32))
    ensures
        pair == (42i32, 43i32),
{
    let foo: i32 = 42;
    let mut bar: i32 = 42;
    bar = 43;

    let msg: i32 = 9;
    let msg = msg.to_string();
    let msg = std::sync::Mutex::new(msg);
    let msg = std::sync::Arc::new(msg);
    (foo, bar)
}

/// The three primary colours.
#[allow(unused)]
#[derive(Clone, Copy, Debug, PartialEq, Eq)]
pub enum RGB {
    Red,
    Green,
    Blue,
}

/// A person: a number, a name, an age, and a description that may be missing.
#[allow(unused)]
#[derive(Debug, PartialEq, Eq)]
pub struct Person {
    pub id: i32,
    pub name: String,
    pub age: u8,
    pub description: Option<String>,
}

impl Person {
    /// John, aged 20, number 42, who introduces himself.
    pub fn new() -> (p: Person)
        ensures
            p.id == 42,
            p.name@ == "John"@,
            p.age == 20,
            p.description matches Some(d) && d@ == "Hello, I am John!"@,
    {
        Person {
            id: 42,
            name: "John".to_string(),
            age: 20,
            description: Some("Hello, I am John!".to_string()),
        }
    }

    /// The person's name.
    pub fn get_name(&self) -> (name: &String)
        ensures
            *name == self.name,
    {
        &self.name
    }

    /// Says whether the person has a description.
    pub fn get_desciption(&self) -> (out: String)
        ensures
            out@ == if self.description is Some {
                "The person's have description"@
            } else {
                "The person have no description!"@
            },
    {
        if self.description.is_some() {
            "The person's have description".to_string()
        } else {
            "The person have no description!".to_string()
        }
    }
}

/// `Option` holds some value or none. Returns one of each.
#[allow(unused)]
pub fn introduce_option() -> (pair: (Option<i32>, Option<i32>))
    ensures
        pair.0 == Some(1i32),
        pair.1 is None,
{
    let a: Option<i32> = Some(1);
    let b: Option<i32> = None;
    (a, b)
}

/// `if`, `else if` and `else`, and `if let` to take a value out of an
/// `Option`. Returns the line that the lesson writes.
#[allow(unused)]
pub fn introduce_if_else() -> (out: String)
    ensures
        out@ == "demo contains: This is a message\n"@,
{
    let mut out = String::new();
    let a: bool = true;
    let b: i32 = 9;
    if a {
    } else if b != 9 {
    } else {
    }

    let demo: Option<String> = Some("This is a message".to_string());

    if let Some(msg) = demo {
        out.push_str("demo contains: ");
        write_line(&mut out, msg.as_str());
    } else {
        write_line(&mut out, "demo has no value");
    }
    proof {
        reveal_strlit("This is a message");
        reveal_strlit("demo contains: ");
        reveal_strlit("demo contains: This is a message\n");
    }
    assert(out@ =~= "demo contains: This is a message\n"@);
    out
}

/// A function with two parameters and a result: 1 where `b` holds, and 42
/// otherwise, after writing `a` as a line. Returns that number and the text
/// written.
#[allow(unused)]
pub fn this_is_a_function(a: String, b: bool) -> (r: (i32, String))
    ensures
        b ==> r.0 == 1 && r.1@ == Seq::<char>::empty(),
        !b ==> r.0 == 42 && r.1@ == a@.push('\n'),
{
    let mut out = String::new();
    if b {
        return (1, out);
    } else {
        write_line(&mut out, a.as_str());
    }
    (42, out)
}

} // verus!
