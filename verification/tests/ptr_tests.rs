use std::cell::{Cell, RefCell};
use std::ops::Deref;
use std::rc::Rc;
use workbench::pointers::{foo, gen_static_str, Person};

struct Owner {
    name: String,
}

struct MyBox<T>(T);

impl<T> MyBox<T> {
    fn new(x: T) -> MyBox<T> {
        MyBox(x)
    }
}

impl<T> std::ops::Deref for MyBox<T> {
    type Target = T;

    fn deref(&self) -> &Self::Target {
        &self.0
    }
}

struct Gadget {
    id: i32,
    owner: Rc<Owner>,
}

#[test]
fn test_ptr() {
    let b = foo("rust");
    println!("{}", b);
    assert_eq!(b, "hello,rust");
}

#[test]
fn test_box_heap() {
    let a = Box::new(3);
    println!("a = {}", a);

    let b = *a + 1;
    println!("b = {}", b);
    assert_eq!(b, 4);
}

#[test]
fn test_skip_copy() {
    let arr = [0; 100];
    let arr1 = arr;
    println!("arr = {:?}", arr);
    println!("arr1 = {:?}", arr1);

    let s1 = String::from("hello");
    let s2 = s1;
    println!("s2 = {}", s2);

    let arr = Box::new([0; 100]);
    let arr1 = arr;
    println!("arr1 = {:?}", arr1);
}

#[test]
fn ptr_test_box_use() {
    let arr = vec![Box::new(1), Box::new(2)];
    let (first, second) = (&arr[0], &arr[1]);
    let sum = **first + **second;
    println!("sum = {}", sum);
    assert_eq!(sum, 3);
}

#[test]
fn test_box_leak() {
    let s = gen_static_str();
    println!("s = {}", s);
    assert_eq!(s, "hello, world!");
}

#[test]
fn test_rc() {
    let s = String::from("hello");
    let a = Box::new(s);
    println!("a={}", a);

    let a = Rc::new(String::from("hello"));
    let b = Rc::clone(&a);

    assert_eq!(2, Rc::strong_count(&a));
    assert_eq!(Rc::strong_count(&a), Rc::strong_count(&b));

    println!("a = {}", a);

    {
        let c = Rc::clone(&a);
        println!("c = {}", c);
        assert_eq!(3, Rc::strong_count(&a));
    }
    assert_eq!(2, Rc::strong_count(&a));
}

#[test]
fn test_rc_example() {
    let gadget_owner: Rc<Owner> = Rc::new(Owner {
        name: "jack".to_string(),
    });

    let gadget1 = Gadget {
        id: 1,
        owner: Rc::clone(&gadget_owner),
    };

    let gadget2 = Gadget {
        id: 2,
        owner: Rc::clone(&gadget_owner),
    };

    println!("gadget_owner count is {}", Rc::strong_count(&gadget_owner));
    assert_eq!(Rc::strong_count(&gadget_owner), 3);
    drop(gadget_owner);
    println!(
        "gadget_owner count is {} after drop",
        Rc::strong_count(&gadget1.owner)
    );
    assert_eq!(Rc::strong_count(&gadget1.owner), 2);
    println!("Gadget {} owned by {}", gadget1.id, gadget1.owner.name);
    println!("Gadget {} owned by {}", gadget2.id, gadget2.owner.name);
}

#[test]
fn test_cell() {
    let c = Cell::new("hello");
    let one = c.get();
    println!("one = {}", one);
    c.set("world");
    let two = c.get();
    println!("one = {},two = {}", one, two);
    assert_eq!(one, "hello");
    assert_eq!(two, "world");
}

#[test]
fn ptr_test_ref_cell() {
    let s = RefCell::new(String::from("hello"));
    let s1 = s.borrow();
    println!("s1 = {}", s1);
    assert_eq!(*s1, "hello");
}

#[test]
fn test_custom_box() {
    let x = MyBox::new(5);
    assert_eq!(5, *x);
    assert_eq!(5, *(x.deref()));
}

#[test]
fn person_holds_its_parts() {
    let p = Person::new("jack".to_string(), 18);
    println!("name = {}, age = {}", p.name, p.age);
    assert_eq!(p.name, "jack");
    assert_eq!(p.age, 18);
}
