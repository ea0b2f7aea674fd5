use workbench::basics::{first_word, first_word2};

const MAX_POINTS: u32 = 100_000;

#[test]
fn test_borrowed_str() {
    let mut s = String::from("hello world");
    let word = first_word(&s);
    println!("word is {:?}", word);
    s.clear();
    println!("word is {:?}", word);
    assert_eq!(word, Some(String::from("h")));
}

#[test]
fn test_borrowed_str2() {
    let s = String::from("hello world");
    let word = first_word2(&s);
    println!("word is {:?}", word);
    assert_eq!(word, "h");
}

#[test]
fn test_borrowed_str3() {
    let s = "hello world";
    let word = first_word2(s);
    println!("word is {:?}", word);

    let str = String::from("hello world");
    let str = str.as_str();
    println!("str is {:?}", str);
    assert_eq!(word, "h");
}

#[test]
fn test_change_str() {
    let mut str = String::from("hello");
    str.push_str(" world");
    str.push('!');
    println!("str is {:?}", str);
    assert_eq!(str, "hello world!");

    str.insert(5, ',');
    println!("str is {:?}", str);
    assert_eq!(str, "hello, world!");

    str.insert_str(6, "rust");
    println!("str is {:?}", str);
    assert_eq!(str, "hello,rust world!");

    str = str.replace("world!", "program");
    println!("str is {:?}", str);
    assert_eq!(str, "hello,rust program");

    let mut str = String::from("good good study,day day up");
    str = str.replacen("good", "nice", 1);
    println!("str is {:?}", str);
    assert_eq!(str, "nice good study,day day up");

    str = str.replacen("day", "everyday", 2);
    println!("str is {:?}", str);
    assert_eq!(str, "nice good study,everyday everyday up");

    str.replace_range(0..4, "good");
    println!("str is {:?}", str);
    assert_eq!(str, "good good study,everyday everyday up");
}

#[test]
fn test_var() {
    let x = 10;
    let y = 3.14;

    let a = String::from("hello");
    let b = "world";

    let mut c = 20;
    println!("origin c is {}", c);
    c = 30;
    println!("re_set c is {}", c);

    let c = 40;
    println!("redefined c is {}", c);

    let arr = vec![1, 2, 3];
    let arr2 = vec!["a", "b", "c"];

    let tup = (1, "hello");
    let (e, f) = tup;

    println!("{x},{y},{a},{b},{c},{:?},{:?},{:?} {e},{f}", arr, arr2, tup);

    let g = false;
    let h = true;
    let i = ();

    println!("{g},{h},{:?}", i);

    println!("MAX_POINTS is {}", MAX_POINTS);
    assert_eq!(MAX_POINTS, 100000);
}
