use blackboard::{BlackBoard, RcOrNormalRef, Subscriptor};
use std::cell::Cell;
use std::rc::Rc;

/// Counts the posts it hears, through a counter the test keeps a handle to.
struct Counter {
    seen: Rc<Cell<u32>>,
}

impl<T> Subscriptor<T> for Counter {
    fn notify(&mut self, _what: &mut T) {
        self.seen.set(self.seen.get() + 1);
    }
}

/// Raises a flag when it hears one given name.
struct Watcher {
    name: &'static str,
    flag: Rc<Cell<bool>>,
}

impl Subscriptor<&'static str> for Watcher {
    fn notify(&mut self, what: &mut &'static str) {
        if *what == self.name {
            self.flag.set(true);
        }
    }
}

/// Doubles every number it is handed.
struct Doubler;

impl Subscriptor<i32> for Doubler {
    fn notify(&mut self, what: &mut i32) {
        *what *= 2;
    }
}

/// Adds one to every number it is handed.
struct AddOne;

impl Subscriptor<i32> for AddOne {
    fn notify(&mut self, what: &mut i32) {
        *what += 1;
    }
}

enum Farmhand {
    Count(Counter),
    Watch(Watcher),
}

impl Subscriptor<&'static str> for Farmhand {
    fn notify(&mut self, what: &mut &'static str) {
        match self {
            Farmhand::Count(c) => c.notify(what),
            Farmhand::Watch(w) => w.notify(what),
        }
    }
}

#[test]
fn post_and_get() {
    let mut bb = BlackBoard::<&str, i32, Doubler>::new();

    bb.post("Street", 25);
    bb.post("Home", 15);
    bb.post("Street", 82);

    let expected = vec!["Street", "Home"];
    let mut all_are_in = true;
    for section in bb.get_sections() {
        if !expected.contains(section) {
            all_are_in = false;
            break;
        }
    }
    assert!(all_are_in);

    assert_eq!(&vec![25, 82], bb.get(&"Street").unwrap());
    assert_eq!(&vec![15], bb.get(&"Home").unwrap());
}

#[test]
fn suscribe_test() {
    let mut bb = BlackBoard::<&str, &str, Watcher>::new();
    let changed = Rc::new(Cell::new(false));
    bb.subscribe("Park", Watcher { name: "", flag: changed.clone() });

    bb.post("Park", "");

    assert!(changed.get());
}

#[test]
fn get_on_untouched_section_is_none() {
    let mut bb = BlackBoard::<u32, i32, Doubler>::new();
    assert!(bb.get(&7).is_none());
    bb.post(1, 5);
    assert!(bb.get(&7).is_none());
    assert_eq!(bb.get(&1), Some(&vec![5]));
}

#[test]
fn sections_are_those_posted_or_subscribed() {
    let mut bb = BlackBoard::<&str, i32, Doubler>::new();
    assert!(bb.get_sections().is_empty());
    bb.subscribe("A", Doubler);
    bb.post("B", 1);
    bb.post("A", 2);
    bb.subscribe("C", Doubler);
    bb.post("B", 3);
    let mut sections: Vec<&str> = bb.get_sections().into_iter().map(|s| *s).collect();
    sections.sort();
    assert_eq!(sections, vec!["A", "B", "C"]);
    // A section that was only subscribed to exists, with an empty history.
    assert_eq!(bb.get(&"C"), Some(&vec![]));
}

#[test]
fn subscriber_hears_every_post_to_its_section() {
    let seen = Rc::new(Cell::new(0));
    let mut bb = BlackBoard::<&str, i32, Counter>::new();
    bb.subscribe("S", Counter { seen: seen.clone() });
    for v in 0..5 {
        bb.post("S", v);
    }
    bb.post("T", 9);
    assert_eq!(seen.get(), 5);
    assert_eq!(bb.get(&"S"), Some(&vec![0, 1, 2, 3, 4]));
}

#[test]
fn stored_value_is_the_one_subscribers_left() {
    let mut bb = BlackBoard::<&str, i32, Doubler>::new();
    bb.subscribe("N", Doubler);
    bb.post("N", 3);
    bb.post("N", 10);
    bb.post("M", 10);
    assert_eq!(bb.get(&"N"), Some(&vec![6, 20]));
    assert_eq!(bb.get(&"M"), Some(&vec![10]));
}

#[test]
fn subscribers_are_notified_in_order() {
    let mut first = BlackBoard::<&str, i32, Mixed>::new();
    first.subscribe("X", Mixed::Add(AddOne));
    first.subscribe("X", Mixed::Double(Doubler));
    first.post("X", 4);
    let mut second = BlackBoard::<&str, i32, Mixed>::new();
    second.subscribe("X", Mixed::Double(Doubler));
    second.subscribe("X", Mixed::Add(AddOne));
    second.post("X", 4);
    assert_eq!(first.get(&"X"), Some(&vec![10]));
    assert_eq!(second.get(&"X"), Some(&vec![9]));
}

enum Mixed {
    Add(AddOne),
    Double(Doubler),
}

impl Subscriptor<i32> for Mixed {
    fn notify(&mut self, what: &mut i32) {
        match self {
            Mixed::Add(a) => a.notify(what),
            Mixed::Double(d) => d.notify(what),
        }
    }
}

#[test]
fn post_without_subscribers_only_appends() {
    let mut bb = BlackBoard::<&str, i32, Doubler>::new();
    bb.subscribe("Other", Doubler);
    bb.post("Quiet", 21);
    bb.post("Quiet", 22);
    assert_eq!(bb.get(&"Quiet"), Some(&vec![21, 22]));
}

#[test]
// One shared value registered under two sections is held by two handles of
// the board, so it always counts as in use and is never notified; owned
// subscribers are the way to be heard in two sections.
fn shared_subscriber_on_two_sections_is_always_passed_over() {
    let seen = Rc::new(Cell::new(0));
    let shared = Rc::new(Counter { seen: seen.clone() });
    let mut bb = BlackBoard::<&str, i32, Counter>::new();
    bb.subscribe_rc("S1", &shared);
    bb.subscribe_rc("S2", &shared);
    // While the test holds its own handle, the board passes the subscriber over.
    bb.post("S1", 1);
    assert_eq!(seen.get(), 0);
    drop(shared);
    // Two handles remain, one per section, so the subscriber is still shared.
    bb.post("S1", 2);
    bb.post("S3", 3);
    assert_eq!(seen.get(), 0);
    assert_eq!(bb.get(&"S1"), Some(&vec![1, 2]));
    assert_eq!(bb.get(&"S3"), Some(&vec![3]));
}

#[test]
fn owned_subscribers_on_two_sections_hear_each_post_once() {
    let seen = Rc::new(Cell::new(0));
    let mut bb = BlackBoard::<&str, i32, Counter>::new();
    bb.subscribe("S1", Counter { seen: seen.clone() });
    bb.subscribe("S2", Counter { seen: seen.clone() });
    bb.post("S1", 1);
    bb.post("S2", 2);
    bb.post("S1", 3);
    assert_eq!(seen.get(), 3);
    bb.post("S3", 4);
    assert_eq!(seen.get(), 3);
}

#[test]
fn shared_subscriber_in_use_is_skipped_and_value_still_stored() {
    let seen = Rc::new(Cell::new(0));
    let shared = Rc::new(Counter { seen: seen.clone() });
    let mut bb = BlackBoard::<&str, i32, Counter>::new();
    bb.subscribe_rc("S", &shared);
    bb.post("S", 7);
    assert_eq!(seen.get(), 0);
    assert_eq!(bb.get(&"S"), Some(&vec![7]));
    drop(shared);
    bb.post("S", 8);
    assert_eq!(seen.get(), 1);
    assert_eq!(bb.get(&"S"), Some(&vec![7, 8]));
}

#[test]
fn farm_counts_cows_and_spots_betsie() {
    let counter = Rc::new(Cell::new(0));
    let flag = Rc::new(Cell::new(false));
    let mut bb = BlackBoard::<&str, &str, Farmhand>::new();
    bb.subscribe("Cows", Farmhand::Count(Counter { seen: counter.clone() }));
    bb.subscribe("Chickens", Farmhand::Watch(Watcher { name: "Betsie", flag: flag.clone() }));
    bb.post("Cows", "Daisy");
    bb.post("Sheep", "Dolly");
    bb.post("Chickens", "Henny");
    bb.post("Cows", "Bella");
    bb.post("Cows", "Molly");
    bb.post("Sheep", "Shaun");
    bb.post("Chickens", "Betsie");
    bb.post("Cows", "Rosie");
    assert_eq!(counter.get(), 4);
    assert!(flag.get());
}

#[test]
fn holder_grants_mutable_access_to_an_owner() {
    let mut h = RcOrNormalRef::from_value(5);
    *h.get_mut().unwrap() += 1;
    assert_eq!(*h.get(), 6);
    let mut b = RcOrNormalRef::from_box(Box::new(String::from("a")));
    b.get_mut().unwrap().push('b');
    assert_eq!(b.get(), "ab");
}

#[test]
fn holder_refuses_mutable_access_while_shared() {
    let rc = Rc::new(10);
    let mut h = RcOrNormalRef::from_rc(&rc);
    assert_eq!(*h.get(), 10);
    assert!(h.get_mut().is_none());
    drop(rc);
    *h.get_mut().unwrap() = 11;
    assert_eq!(*h.get(), 11);
}

#[test]
fn holder_converts_and_reads_through() {
    let owned: RcOrNormalRef<i32> = RcOrNormalRef::from(Box::new(3));
    assert_eq!(*owned, 3);
    let rc = Rc::new(String::from("shared"));
    let mut shared: RcOrNormalRef<String> = RcOrNormalRef::from(&rc);
    assert_eq!(shared.len(), 6);
    assert_eq!(Rc::strong_count(&rc), 2);
    assert!(shared.get_mut().is_none());
}
