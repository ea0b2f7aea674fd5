use std::rc::Rc;
use std::sync::{mpsc, Mutex};

#[test]
fn test_mutex() {
    let counter = Mutex::new(0);

    {
        let mut num = counter.lock().unwrap();
        *num += 1;
    }

    println!("counter is {:?}", counter);
    println!("counter is {}", counter.lock().unwrap());
    assert_eq!(*counter.lock().unwrap(), 1);
}

#[test]
fn test_mutex_read() {
    let m = Mutex::new(5);

    {
        let mut num = m.lock().unwrap();
        *num = 6;
    }

    println!("m = {:?}", m);
    assert_eq!(*m.lock().unwrap(), 6);
}

#[test]
fn test_mutex_always_lock() {
    let m = Mutex::new(5);

    let mut num = m.lock().unwrap();
    *num = 6;
    println!("m = {:?}", m);

    drop(num);

    let mut num1 = m.lock().unwrap();
    *num1 = 7;
    println!("m = {:?}", m);

    drop(num1);

    println!("m = {:?}", m);
    assert_eq!(*m.lock().unwrap(), 7);
}

#[test]
fn test_mutex_in_multiple_threads_fail() {
    // An `Rc` cannot cross threads, so the counter is only read locally.
    let counter = Rc::new(Mutex::new(0));

    println!("Result is {}", *counter.lock().unwrap());
    assert_eq!(*counter.lock().unwrap(), 0);
}

#[test]
fn test_mpsc_tx_drop() {
    let (tx, rx) = mpsc::channel::<String>();

    drop(tx);

    if let Ok(msg) = rx.recv() {
        println!("Got: {}", msg);
    }
    assert!(rx.recv().is_err());
}
