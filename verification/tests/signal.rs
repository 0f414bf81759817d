use poly_ui::components::Signal;
use poly_ui::components::Slot;
use std::cell::RefCell;
use std::rc::Rc;

type Handler = Box<dyn FnMut(i32)>;

#[test]
fn handle_intent() {}

#[test]
fn connect_keeps_every_slot() {
    let mut signal: Signal<i32, Handler> = Signal::new();
    let first = Rc::new(RefCell::new(Slot::new(Box::new(|damage: i32| {
        let _ = damage;
    }) as Handler)));
    let second = Rc::new(RefCell::new(Slot::new(Box::new(|damage: i32| {
        let _ = damage + 1;
    }) as Handler)));
    signal.connect(first.clone());
    signal.connect(second.clone());
    assert_eq!(Rc::strong_count(&first), 2);
    assert_eq!(Rc::strong_count(&second), 2);
}
