use std::cell::RefCell;
use std::rc::Rc;

use bletchmame::canceller::Canceller;
use bletchmame::channel::Channel;

#[test]
fn channel_publish_reaches_subscribers() {
    let log = Rc::new(RefCell::new(Vec::<String>::new()));
    let mut channel: Channel<Box<dyn Fn(&u32)>> = Channel::new();
    let l1 = log.clone();
    let a = channel.subscribe(Box::new(move |x: &u32| l1.borrow_mut().push(format!("a{x}"))));
    let l2 = log.clone();
    let b = channel.subscribe(Box::new(move |x: &u32| l2.borrow_mut().push(format!("b{x}"))));
    assert_eq!((0, 1), (a, b));
    channel.publish(&7);
    assert_eq!(vec!["a7".to_string(), "b7".to_string()], *log.borrow());

    channel.unsubscribe(a);
    channel.publish(&8);
    assert_eq!(vec!["a7".to_string(), "b7".to_string(), "b8".to_string()], *log.borrow());
}

#[test]
fn channel_reuses_free_slots() {
    let mut channel: Channel<Box<dyn Fn(&u32)>> = Channel::new();
    let a = channel.subscribe(Box::new(|_: &u32| {}));
    let b = channel.subscribe(Box::new(|_: &u32| {}));
    let c = channel.subscribe(Box::new(|_: &u32| {}));
    assert_eq!((0, 1, 2), (a, b, c));
    channel.unsubscribe(b);
    let d = channel.subscribe(Box::new(|_: &u32| {}));
    assert_eq!(1, d);
    channel.unsubscribe(c);
    channel.unsubscribe(d);
    let e = channel.subscribe(Box::new(|_: &u32| {}));
    assert_eq!(1, e);
}

#[test]
fn channel_unsubscribe_undoes_subscribe() {
    let count = Rc::new(RefCell::new(0));
    let mut channel: Channel<Box<dyn Fn(&u32)>> = Channel::new();
    let c1 = count.clone();
    let _a = channel.subscribe(Box::new(move |_: &u32| *c1.borrow_mut() += 1));
    let c2 = count.clone();
    let b = channel.subscribe(Box::new(move |_: &u32| *c2.borrow_mut() += 10));
    channel.unsubscribe(b);
    channel.publish(&0);
    assert_eq!(1, *count.borrow());
    let c3 = count.clone();
    let again = channel.subscribe(Box::new(move |_: &u32| *c3.borrow_mut() += 100));
    assert_eq!(b, again);
}

#[test]
fn canceller_is_shared_between_clones() {
    let canceller = Canceller::default();
    let clone = canceller.clone();
    assert!(clone.status().is_continue());
    canceller.cancel();
    assert!(clone.status().is_break());
    assert!(canceller.status().is_break());
}
