use workbench::lifecycle::{func, get_str, longest, Person};

#[test]
fn test_lifecycle() {
    let get_hello_str = get_str();
    println!("Got hello str: {:?}", get_hello_str);
    assert_eq!(get_hello_str, "Hello, World!");
}

#[test]
fn test_longest() {
    let a = String::from("Hello");
    let b = String::from("World");

    let res = longest(&a, &b);
    println!("res: {:?}", res);
    assert_eq!(res, "World");
    assert_eq!(longest("longer", "tiny"), "longer");
    // Length is byte length: two two-byte characters outweigh three ASCII
    // ones.
    assert_eq!(longest("\u{e9}\u{e9}", "abc"), "\u{e9}\u{e9}");
}

#[test]
fn test_struct() {
    let name = String::from("John");
    let p = Person { name: &name };

    println!("Person name: {:?}", p.name);
    assert_eq!(p.name, "John");
}

#[test]
fn test_multi_type_result() {
    let a: String = func();
    let b: u8 = func();
    println!("a: {:?}", a);
    println!("b: {:?}", b);
    assert_eq!(a, "hello");
    assert_eq!(b, 10);
}
