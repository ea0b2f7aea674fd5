use workbench::types::{calculate_distance, reinterpret, Bar, Foo, Meters, Wrapper};

type OtherType = u32;

type Thunk = Box<dyn Fn() + Send + 'static>;

#[test]
fn test_type_transform() {
    println!("i32 max {}", i32::MAX);

    let a = 3.1 as i8;
    println!("a is {}", a);
    assert_eq!(a, 3);

    let mut values: [i32; 2] = [1, 2];
    values[1] += 1;
    assert_eq!(values[1], 3);
    println!("{:?}", values);
}

#[test]
fn test_try_into() {
    let a: u8 = 10;
    let b: u16 = 1500;

    let b_: u8 = match b.try_into() {
        Ok(v) => v,
        Err(e) => {
            println!("{:?}", e.to_string());
            0
        }
    };
    assert_eq!(b_, 0);

    if a < b_ {
        println!("a is {:?}", a);
    }
}

#[test]
fn test_struct_transform() {
    let foo = Foo { x: 1, y: 2 };
    let bar: Bar = reinterpret(foo);
    println!("bar is {:?} bar.a is {},bar.b is {}", bar, bar.a, bar.b);
    assert_eq!(bar.a, 1);
    assert_eq!(bar.b, 2);
}

#[test]
fn test_new_type() {
    let w = Wrapper(vec![String::from("hello"), String::from("world")]);
    println!("w is {}", w.fmt_string());
    assert_eq!(w.fmt_string(), "[hello,world]");
    let empty = Wrapper(vec![]);
    assert_eq!(empty.fmt_string(), "[]");
    let one = Wrapper(vec![String::from("solo")]);
    assert_eq!(one.fmt_string(), "[solo]");
}

#[test]
fn test_custom_add_display() {
    let d = calculate_distance(Meters(10), Meters(20));
    println!("distance is {} meters", d.0);
    assert_eq!(d.0, 30);
}

#[test]
fn test_alias_type() {
    let x: u32 = 5;
    let y: OtherType = 20;
    println!("x + y = {}", x + y);
    assert_eq!(x + y, 25);

    let f: Box<dyn Fn() + Send + 'static> = Box::new(|| println!("hi"));
    f();

    let f: Thunk = Box::new(|| println!("hi"));
    f();
}
