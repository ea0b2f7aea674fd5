use std::collections::HashMap;
use std::sync::Mutex;
use workbench::ids::Factory;

const MAX_ID: usize = usize::MAX / 2;

static REQUEST_RECV: usize = 0;

#[derive(Debug)]
#[allow(unused)]
struct Config {
    a: String,
    b: String,
}

#[test]
fn test_global_var() {
    println!("global_var MAX_ID = {}", MAX_ID);
    println!("global_var REQUEST_RECV = {:?}", REQUEST_RECV);
    assert_eq!(MAX_ID, usize::MAX / 2);
}

#[test]
fn test_generate_global_id() {
    let mut id_counter: usize = 0;
    let factory = Factory::new(&mut id_counter);
    println!("factory.factory_id = {}", factory.factory_id);
    assert_eq!(factory.factory_id, 1);

    let factory = Factory::new(&mut id_counter);
    println!("factory.factory_id = {}", factory.factory_id);
    assert_eq!(factory.factory_id, 2);
}

#[test]
fn test_init_value() {
    let names: Mutex<String> = Mutex::new(String::from("Hello"));
    let mut v = names.lock().unwrap();
    v.push_str(" world");
    println!("{}", v);
    assert_eq!(*v, "Hello world");
}

#[test]
fn test_global_user_data() {
    let mut user_data: HashMap<u32, &'static str> = HashMap::new();
    user_data.insert(0, "World");
    user_data.insert(1, "UserData");
    println!("{}", user_data.get(&0).unwrap_or(&""));
    println!("{}", user_data.get(&1).unwrap_or(&""));
    assert_eq!(user_data.get(&0), Some(&"World"));
}

#[test]
fn test_leak_to_global() {
    let c = Box::new(Config {
        a: "A".to_string(),
        b: "B".to_string(),
    });
    println!("c is {:?}", c);
    assert_eq!(c.a, "A");
}

#[test]
fn test_error() {
    let s1 = Some("some1");
    let s2 = Some("some2");
    let n: Option<&str> = None;

    let o1: Result<&str, &str> = Ok("ok1");
    let o2: Result<&str, &str> = Ok("ok2");
    let e1: Result<&str, &str> = Err("err1");
    let e2: Result<&str, &str> = Err("err2");

    assert_eq!(s1.or(s2), s1);
    assert_eq!(s1.or(n), s1);

    assert_eq!(o1.or(o2), o1);
    assert_eq!(o1.or(e1), o1);
    assert_eq!(e1.or(o1), o1);
    assert_eq!(e1.or(e2), e2);

    assert_eq!(s1.and(s2), s2);
    assert_eq!(s1.and(n), n);
    assert_eq!(n.and(s1), n);
    assert_eq!(n.and(n), n);

    assert_eq!(o1.and(o2), o2);
    assert_eq!(o1.and(e1), e1);
    assert_eq!(e1.and(o1), e1);
    assert_eq!(e1.and(e2), e1);
}
