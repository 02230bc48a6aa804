//! The events of each demo, as gathered from a shared log.

use vstd::hash_map::StringHashMap;
use vstd::prelude::*;

verus! {

/// Whether `list` holds the text `x`.
fn holds(list: &Vec<String>, x: &String) -> (b: bool)
    ensures
        b == list.deep_view().contains(x@),
{
    let mut i: usize = 0;
    while i < list.len()
        invariant
            i <= list.len(),
            forall|j: int| 0 <= j < i ==> list@[j]@ != x@,
        decreases list.len() - i,
    {
        if list[i] == *x {
            assert(list.deep_view()[i as int] == x@);
            return true;
        }
        i += 1;
    }
    false
}

/// The texts of `list` and after them the text `x`.
fn with_one_more(list: &Vec<String>, x: String) -> (more: Vec<String>)
    ensures
        more.deep_view() == list.deep_view().push(x@),
{
    let mut more: Vec<String> = Vec::new();
    let mut i: usize = 0;
    while i < list.len()
        invariant
            i <= list.len(),
            more@.len() == i,
            forall|j: int| 0 <= j < i ==> more@[j]@ == list@[j]@,
        decreases list.len() - i,
    {
        more.push(list[i].clone());
        i += 1;
    }
    more.push(x);
    assert(more.deep_view() =~= list.deep_view().push(x@));
    more
}

/// A list without repetitions stays one when a text that it lacks is added,
/// and then holds that text besides what it held.
proof fn lemma_push_fresh(list: Seq<Seq<char>>, x: Seq<char>)
    requires
        list.no_duplicates(),
        !list.contains(x),
    ensures
        list.push(x).no_duplicates(),
        list.push(x).to_set() == list.to_set().insert(x),
{
    let more = list.push(x);
    assert forall|i: int, j: int| 0 <= i < more.len() && 0 <= j < more.len() && i != j implies more[i]
        != more[j] by {
        if i < list.len() {
            assert(list.contains(list[i]));
        }
        if j < list.len() {
            assert(list.contains(list[j]));
        }
    }
    assert forall|y: Seq<char>| more.to_set().contains(y) == list.to_set().insert(x).contains(
        y,
    ) by {
        if more.to_set().contains(y) {
            let i = choose|i: int| 0 <= i < more.len() && more[i] == y;
            if i < list.len() {
                assert(list[i] == y);
            }
        }
        if list.to_set().contains(y) {
            let i = choose|i: int| 0 <= i < list.len() && list[i] == y;
            assert(more[i] == y);
        }
        if y == x {
            assert(more[list.len() as int] == x);
        }
    }
    assert(more.to_set() =~= list.to_set().insert(x));
}

/// For each demo of which the log speaks the set of its events. The demos
/// are keyed by the names of their files; the events of a demo are kept each
/// once, in the order in which the log first names them.
pub struct EventTable {
    rows: StringHashMap<Vec<String>>,
}

impl View for EventTable {
    type V = Map<Seq<char>, Set<Seq<char>>>;

    closed spec fn view(&self) -> Map<Seq<char>, Set<Seq<char>>> {
        Map::new(
            |f: Seq<char>| self.rows@.dom().contains(f),
            |f: Seq<char>| self.rows@[f].deep_view().to_set(),
        )
    }
}

impl EventTable {
    /// The table holds finitely many demos, and none with an event twice.
    pub closed spec fn wf(&self) -> bool {
        &&& self.rows@.dom().finite()
        &&& forall|f: Seq<char>| #[trigger]
            self.rows@.dom().contains(f) ==> self.rows@[f].deep_view().no_duplicates()
    }

    /// The events of the file `f`, none where the table does not hold it.
    pub open spec fn events_of(&self, f: Seq<char>) -> Set<Seq<char>> {
        if self@.dom().contains(f) {
            self@[f]
        } else {
            Set::empty()
        }
    }

    /// A table that holds no demo.
    pub fn new() -> (table: EventTable)
        ensures
            table.wf(),
            table@ == Map::<Seq<char>, Set<Seq<char>>>::empty(),
    {
        let table = EventTable { rows: StringHashMap::new() };
        assert(table@ =~= Map::<Seq<char>, Set<Seq<char>>>::empty());
        table
    }

    /// The number of demos that the table holds.
    pub fn len(&self) -> (n: usize)
        requires
            self.wf(),
        ensures
            n == self@.dom().len(),
            self@.dom().finite(),
    {
        assert(self@.dom() =~= self.rows@.dom());
        self.rows.len()
    }

    /// Adds `event` to the events of the demo file `demo_file`.
    pub fn insert(&mut self, demo_file: String, event: String)
        requires
            old(self).wf(),
        ensures
            final(self).wf(),
            final(self)@ == old(self)@.insert(
                demo_file@,
                old(self).events_of(demo_file@).insert(event@),
            ),
    {
        let ghost before = *self;
        let ghost f = demo_file@;
        let ghost e = event@;
        let ghost target = before@.insert(f, before.events_of(f).insert(e));
        let more = match self.rows.get(demo_file.as_str()) {
            Some(events) => {
                if holds(events, &event) {
                    proof {
                        let known = events.deep_view();
                        assert(known.to_set().insert(e) =~= known.to_set());
                        assert(self@ =~= target);
                    }
                    None
                } else {
                    proof {
                        lemma_push_fresh(events.deep_view(), e);
                    }
                    Some(with_one_more(events, event))
                }
            },
            None => {
                let none: Vec<String> = Vec::new();
                proof {
                    assert(none.deep_view() =~= Seq::<Seq<char>>::empty());
                    assert(none.deep_view().to_set() =~= Set::<Seq<char>>::empty());
                    lemma_push_fresh(none.deep_view(), e);
                }
                Some(with_one_more(&none, event))
            },
        };
        match more {
            Some(events) => {
                self.rows.insert(demo_file, events);
                proof {
                    assert(self.rows@.dom() =~= before.rows@.dom().insert(f));
                    assert forall|g: Seq<char>| #[trigger]
                        self.rows@.dom().contains(g) implies self.rows@[g].deep_view().no_duplicates() by {
                        if g != f {
                            assert(before.rows@.dom().contains(g));
                        }
                    }
                    assert(self@ =~= target);
                }
            },
            None => {},
        }
    }

    /// The events of the demo file `demo_file`, `None` where the table does
    /// not hold it.
    pub fn get(&self, demo_file: &String) -> (events: Option<&Vec<String>>)
        requires
            self.wf(),
        ensures
            events is Some == self@.dom().contains(demo_file@),
            events is Some ==> events->0.deep_view().to_set() == self@[demo_file@],
            events is Some ==> events->0.deep_view().no_duplicates(),
    {
        self.rows.get(demo_file.as_str())
    }
}

} // verus!
