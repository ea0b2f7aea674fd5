use workbench::basics::{
    first_word, first_word2, get_result, get_username, get_username2, get_username3, might_fail,
    might_fail2, return_option, return_result, sum,
};

#[test]
fn test_func_sum() {
    assert_eq!(sum(1, 2), 3);
}

#[test]
fn test_result_option() {
    let result = return_option(10);
    match result {
        Some(n) => println!("result is {}", n),
        None => println!("result is None"),
    }
    assert_eq!(result, Some(10));

    let result = return_option(0);
    if let Some(result) = result {
        println!("result is {}", result);
    } else {
        println!("result is None");
    }
    assert_eq!(result, None);

    let result = return_option(30);
    let value = result.unwrap();
    println!("result is {}", value);
    assert_eq!(value, 30);

    let result = return_option(40);
    let doubled = result.map(|n| n * 2);
    println!("doubled {}", doubled.unwrap());
}

#[test]
fn test_unwrap() {
    let some_value = Some(5);
    let some_value_unwrap = some_value.unwrap();
    println!("some_value_unwrap is {}", some_value_unwrap);

    let some_value: Option<i32> = None;
    match some_value {
        Some(n) => println!("some_value is {}", n),
        None => println!("some_value is None"),
    }

    if let Some(value) = some_value {
        println!("some_value is {:?}", value);
    } else {
        println!("some_value is None");
    }

    let result = return_result(10);
    println!("{:?}", result);

    let result_unwrap = result.unwrap();
    assert_eq!(result_unwrap, "value is bigger than zero");

    let result = return_result(10);
    let result_ok = result.ok();
    println!("result_ok is {:?}", result_ok);

    let result = return_result(0);
    let result_ok = result.ok();
    println!("result_ok is {:?}", result_ok);
    assert_eq!(result_ok, None);

    let result = might_fail(-1);
    let value = result.ok();
    println!("might_fail is {:?}", value);
    assert_eq!(value, None);

    match result {
        Ok(value) => {
            println!("might_fail is {:?}", value);
        }
        Err(error) => {
            println!("might_fail is {:?}", error);
        }
    }

    let result = might_fail2(5);
    assert_eq!(result, Ok(5));
    let result = might_fail2(0);
    assert_eq!(result, Err(String::from("Something went wrong")));
}

#[test]
fn test_option_to_result() {
    let opt: Option<i32> = Some(10);
    let opt2: Option<i32> = None;
    println!("opt is {:?} opt2 is {:?}", opt, opt2);
    println!("opt ok is {:?}", opt.ok_or(1));

    let opt2_ok_or = opt2.ok_or("opt2 is None");
    println!("opt2_ok_or is {:?}", opt2_ok_or);
    match opt2_ok_or {
        Ok(n) => println!("opt2_ok_or result is {}", n),
        Err(e) => println!("opt2_ok_or error is {}", e),
    }
    if let Err(_) = opt2_ok_or {
        println!("opt2_ok_or is Err");
    }

    let opt2_ok_or_else: Result<i32, String> = opt2.ok_or_else(|| {
        println!("opt2_ok_or_else is Err in closure");
        "error from closure".to_string()
    });
    println!("opt2_ok_or_else is {:?}", opt2_ok_or_else);

    let result1 = get_username(None);
    let result2 = get_username2(None);
    println!("result1 is {:?} result2 is {:?}", result1, result2);
    assert_eq!(result1, Err(String::from("id is none")));
    assert_eq!(result2, Err(String::from("id is none")));

    let res = match Some(10) {
        Some(n) => Ok(n),
        None => Err("no data"),
    };
    println!("res is {:?}", res);

    let opt = Some("hello");
    let result = opt.map_or_else(|| Err("empty"), |v| Ok(v.to_uppercase()));
    println!("result is {:?}", result);

    let opt: Option<&str> = None;
    let result = opt.map_or_else(|| Err("empty"), |v: &str| Ok(v.to_uppercase()));
    println!("result is {:?}", result);

    let result = get_username3(None);
    println!("result is {:?} ", result);
    assert_eq!(result, Err(String::from("id is none")));

    assert_eq!(get_username(Some("jack")), Ok("jack"));
}

#[test]
fn test_result_to_option() {
    let result = get_result(10);
    let opt = result.ok();
    println!("opt is {:?}", opt);
    assert_eq!(opt, Some(10));

    let result = get_result(-1);
    let opt = result.ok();
    println!("opt is {:?}", opt);
    assert_eq!(opt, None);

    let result = get_result(0);
    let opt = result.err();
    println!("result is {:?}", opt);
    assert_eq!(opt, Some("value is less than zero"));

    let result = get_result(1);
    let opt = result.err();
    println!("result is {:?}", opt);
    assert_eq!(opt, None);

    let result = get_result(0);
    let opt = result.map_or(123, |v| v * 2);
    println!("opt is {:?}", opt);
    assert_eq!(opt, 123);

    let result = get_result(10);
    let opt = result.map_or(123, |v| v * 2);
    println!("opt is {:?}", opt);
    assert_eq!(opt, 20);

    let opt = match result {
        Ok(n) => n * 2,
        Err(_) => 123,
    };
    println!("opt is {:?}", opt);

    let opt = result.map_or_else(|_v| 123, |v| v * 2);
    println!("map_or_else opt is {:?}", opt);

    let result = get_result(0);
    let opt = result.map_or_else(|_v| 123, |v| v * 2);
    println!("map_or_else error opt is {:?}", opt);
    assert_eq!(opt, 123);
}

#[test]
fn first_word_takes_one_char() {
    let s = String::from("hello world");
    let word = first_word(&s);
    assert_eq!(word, Some(String::from("h")));
    assert_eq!(first_word(""), None);
    assert_eq!(first_word2(&s), "h");
}
