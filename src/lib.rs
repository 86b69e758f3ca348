//! A blackboard: values are posted into named sections, each section keeps
//! the history of what was posted to it, and subscribers registered on a
//! section are handed every new value before it is stored.
use std::collections::HashMap;
use std::hash::Hash;
use std::rc::Rc;
use vstd::prelude::*;
use vstd::std_specs::hash::obeys_key_model;
use vstd::std_specs::iter::IteratorSpec;

pub mod lemmas;
pub mod rc_or_normal_ref;

pub use rc_or_normal_ref::RcOrNormalRef;

verus! {

broadcast use vstd::std_specs::hash::group_hash_axioms;

/// Something that wants to hear of the values posted to a section. It may
/// change the value it is handed before the board stores it.
pub trait Subscriptor<T>: Sized {
    /// Notifying `self` of `what` may leave the subscriber as `next` and the
    /// value as `out`. A subscriber that says nothing of itself may do
    /// anything to either.
    open spec fn notified(&self, what: T, next: Self, out: T) -> bool {
        true
    }

    /// Receives a value that was just posted.
    fn notify(&mut self, what: &mut T)
        ensures
            old(self).notified(*old(what), *final(self), *final(what)),
    ;
}

/// What one subscriber does to a post: a shared handle whose value is in use
/// elsewhere is passed over, leaving both it and the value as they were;
/// otherwise the subscriber is notified.
pub open spec fn notify_step<T, S: Subscriptor<T>>(
    before: RcOrNormalRef<S>,
    what: T,
    after: RcOrNormalRef<S>,
    out: T,
) -> bool {
    ||| !before.is_owned() && after == before && out == what
    ||| after.holds_like(before) && before.inner().notified(what, after.inner(), out)
}

/// `subs` turned into `subs2` by handing the value through them in order:
/// subscriber `i` receives `vals[i]` and passes on `vals[i + 1]`.
pub open spec fn notify_chain<T, S: Subscriptor<T>>(
    subs: Seq<RcOrNormalRef<S>>,
    subs2: Seq<RcOrNormalRef<S>>,
    vals: Seq<T>,
) -> bool {
    &&& subs2.len() == subs.len()
    &&& vals.len() == subs.len() + 1
    &&& forall|i: int|
        0 <= i < subs.len() ==> #[trigger] notify_step(subs[i], vals[i], subs2[i], vals[i + 1])
}

/// A board of sections, each with the values posted to it, oldest first, and
/// its subscribers, in the order they were registered.
pub struct BlackBoard<Section: Hash + Eq, Type, S: Subscriptor<Type>> {
    map: HashMap<Section, (Vec<Type>, Vec<RcOrNormalRef<S>>)>,
}

impl<Section: Hash + Eq, Type, S: Subscriptor<Type>> BlackBoard<Section, Type, S> {
    /// The section keys behave as plain values for hashing and equality.
    pub open spec fn wf(&self) -> bool {
        obeys_key_model::<Section>()
    }

    /// The sections that exist.
    pub closed spec fn sections(&self) -> Set<Section> {
        self.map@.dom()
    }

    /// The values posted to `section`, oldest first; empty where it does not exist.
    pub closed spec fn history(&self, section: Section) -> Seq<Type> {
        if self.map@.contains_key(section) {
            self.map@[section].0@
        } else {
            Seq::empty()
        }
    }

    /// The subscribers of `section`, in the order they were registered.
    pub closed spec fn subscribers(&self, section: Section) -> Seq<RcOrNormalRef<S>> {
        if self.map@.contains_key(section) {
            self.map@[section].1@
        } else {
            Seq::empty()
        }
    }

    /// `next` is `self` after `what` was posted to `section`.
    pub open spec fn posted(self, section: Section, what: Type, next: Self) -> bool {
        &&& next.sections() == self.sections().insert(section)
        &&& forall|k: Section| k != section ==> #[trigger] next.history(k) == self.history(k)
        &&& forall|k: Section| k != section ==> #[trigger] next.subscribers(k) == self.subscribers(k)
        &&& exists|vals: Seq<Type>|
            {
                &&& vals[0] == what
                &&& notify_chain(self.subscribers(section), next.subscribers(section), vals)
                &&& next.history(section) == self.history(section).push(vals.last())
            }
    }

    /// `next` is `self` after `handle` was subscribed to `section`.
    pub open spec fn subscribed(self, section: Section, handle: RcOrNormalRef<S>, next: Self) -> bool {
        &&& next.sections() == self.sections().insert(section)
        &&& forall|k: Section| k != section ==> #[trigger] next.history(k) == self.history(k)
        &&& forall|k: Section| k != section ==> #[trigger] next.subscribers(k) == self.subscribers(k)
        &&& next.history(section) == self.history(section)
        &&& next.subscribers(section) == self.subscribers(section).push(handle)
    }

    /// Makes an empty board.
    pub fn new() -> (r: Self)
        requires
            obeys_key_model::<Section>(),
        ensures
            r.wf(),
            r.sections() == Set::<Section>::empty(),
            forall|k: Section| #[trigger] r.history(k) == Seq::<Type>::empty(),
            forall|k: Section| #[trigger] r.subscribers(k) == Seq::<RcOrNormalRef<S>>::empty(),
    {
        BlackBoard { map: HashMap::new() }
    }

    /// The values posted to `section`, oldest first, if the section exists.
    pub fn get(&self, section: &Section) -> (r: Option<&Vec<Type>>)
        requires
            self.wf(),
        ensures
            r is Some <==> self.sections().contains(*section),
            r is Some ==> r->0@ == self.history(*section),
    {
        match self.map.get(section) {
            Some(entry) => Some(&entry.0),
            None => None,
        }
    }

    /// The sections that exist, each once, in no particular order.
    pub fn get_sections(&self) -> (r: Vec<&Section>)
        requires
            self.wf(),
        ensures
            r@.len() == self.sections().len(),
            r@.no_duplicates(),
            r@.unref().to_set() == self.sections(),
    {
        let mut r: Vec<&Section> = Vec::new();
        for k in it: self.map.keys()
            invariant
                r@ == it.seq().take(it.index() as int),
        {
            r.push(k);
        }
        proof {
            let keys = vstd::std_specs::hash::spec_keys_iter(&self.map).remaining();
            assert(r@ == keys);
        }
        r
    }

    /// Posts `what` to `section`, which is made if it does not exist yet.
    /// Each subscriber of the section, in the order they were registered, is
    /// handed the value and may change it; a shared subscriber whose value is
    /// in use elsewhere is passed over. The value as the last subscriber left
    /// it is then appended to the section's history.
    ///
    /// A shared subscriber is in use elsewhere whenever any other handle to it
    /// is alive, the board's own handles included: one shared value registered
    /// under two sections, or twice under one, is therefore always passed
    /// over. Register an owned subscriber in each section to have each
    /// notified once per post.
    pub fn post(&mut self, section: Section, what: Type)
        requires
            old(self).wf(),
        ensures
            final(self).wf(),
            old(self).posted(section, what, *final(self)),
            final(self).history(section).len() == old(self).history(section).len() + 1,
            old(self).subscribers(section).len() == 0 ==> final(self).history(section)
                == old(self).history(section).push(what),
    {
        let mut what = what;
        let ghost first = what;
        let ghost subs = self.subscribers(section);
        let ghost hist = self.history(section);
        let raw = self.get_raw_section(section);
        let ghost mut vals: Seq<Type> = seq![what];
        let mut i: usize = 0;
        while i < raw.1.len()
            invariant
                i <= raw.1@.len() == subs.len(),
                raw.0@ == hist,
                vals.len() == i + 1,
                vals[0] == first,
                vals.last() == what,
                forall|j: int| i <= j < subs.len() ==> raw.1@[j] == subs[j],
                forall|j: int|
                    0 <= j < i ==> #[trigger] notify_step(subs[j], vals[j], raw.1@[j], vals[j + 1]),
            decreases subs.len() - i,
        {
            let handle = &mut raw.1[i];
            match handle.get_mut() {
                Some(s) => s.notify(&mut what),
                None => {},
            }
            proof {
                vals = vals.push(what);
            }
            i += 1;
        }
        raw.0.push(what);
        proof {
            assert(notify_chain(subs, raw.1@, vals));
        }
    }

    /// Registers `handle` as the last subscriber of `section`, which is made
    /// if it does not exist yet.
    fn add_subscriber(&mut self, section: Section, handle: RcOrNormalRef<S>)
        requires
            old(self).wf(),
        ensures
            final(self).wf(),
            old(self).subscribed(section, handle, *final(self)),
    {
        self.get_raw_section(section).1.push(handle);
    }

    /// Registers `subscriptor`, owned by the board from now on, as the last
    /// subscriber of `section`, which is made if it does not exist yet.
    pub fn subscribe(&mut self, section: Section, subscriptor: S)
        requires
            old(self).wf(),
        ensures
            final(self).wf(),
            exists|handle: RcOrNormalRef<S>|
                {
                    &&& handle.is_owned()
                    &&& handle.inner() == subscriptor
                    &&& old(self).subscribed(section, handle, *final(self))
                },
    {
        self.add_subscriber(section, RcOrNormalRef::from_value(subscriptor));
    }

    /// Registers one more handle to the shared `subscriptor` as the last
    /// subscriber of `section`, which is made if it does not exist yet. While
    /// any other handle to it is alive, posts pass it over.
    pub fn subscribe_rc(&mut self, section: Section, subscriptor: &Rc<S>)
        requires
            old(self).wf(),
        ensures
            final(self).wf(),
            exists|handle: RcOrNormalRef<S>|
                {
                    &&& !handle.is_owned()
                    &&& handle.inner() == **subscriptor
                    &&& old(self).subscribed(section, handle, *final(self))
                },
    {
        self.add_subscriber(section, RcOrNormalRef::from_rc(subscriptor));
    }

    /// The state of `section`, made empty first if it does not exist yet.
    fn get_raw_section(&mut self, section: Section) -> (r: &mut (Vec<Type>, Vec<RcOrNormalRef<S>>))
        requires
            old(self).wf(),
        ensures
            r.0@ == old(self).history(section),
            r.1@ == old(self).subscribers(section),
            final(self).map@ == old(self).map@.insert(section, *final(r)),
    {
        self.map.entry(section).or_insert((Vec::new(), Vec::new()))
    }

}

} // verus!
