//! The ordered queue of upcoming presentations.
//!
//! Push appends at the back, pop removes at the front; remove and update
//! address an entry by its current index. Indices are stable only between
//! mutations, and index 0 is always "next up". Writing the queue snapshot
//! to disk after a mutation is the caller's duty; the encoding lives in
//! [`crate::snapshot`].

use vstd::prelude::*;

use crate::model::{Presentation, PresentationView};
use crate::textutil::{render_dec, spec_dec};

verus! {

/// One line of the rendered queue listing.
pub open spec fn spec_list_line(i: int, p: PresentationView) -> Seq<char> {
    spec_dec(i as nat) + ": name: "@ + p.presenter.name + " title: "@ + p.title
}

/// The first `n` listing lines, joined with newlines.
pub open spec fn spec_render_upto(qs: Seq<PresentationView>, n: int) -> Seq<char>
    decreases n,
{
    if n <= 0 {
        Seq::empty()
    } else if n == 1 {
        spec_list_line(0, qs[0])
    } else {
        spec_render_upto(qs, n - 1) + seq!['\n'] + spec_list_line(n - 1, qs[n - 1])
    }
}

/// The human-readable queue listing: one `index: name: ... title: ...`
/// line per entry, in queue order; empty queue renders the empty string.
pub open spec fn spec_render_list(qs: Seq<PresentationView>) -> Seq<char> {
    spec_render_upto(qs, qs.len() as int)
}

/// The ordered queue of upcoming presentations (index 0 = next up).
pub struct Presentations {
    list: Vec<Presentation>,
}

impl View for Presentations {
    type V = Seq<PresentationView>;

    closed spec fn view(&self) -> Seq<PresentationView> {
        self.list.deep_view()
    }
}

impl Presentations {
    /// The empty queue.
    pub fn new() -> (r: Self)
        ensures
            r@ =~= Seq::<PresentationView>::empty(),
    {
        Presentations { list: Vec::new() }
    }

    /// Builds a queue holding exactly the given presentations, in order.
    pub fn from_entries(entries: Vec<Presentation>) -> (r: Self)
        ensures
            r@ =~= entries.deep_view(),
    {
        Presentations { list: entries }
    }

    /// How many presentations are queued.
    pub fn len(&self) -> (r: usize)
        ensures
            r == self@.len(),
    {
        self.list.len()
    }

    /// Read access to the entry at `index`.
    pub fn get(&self, index: usize) -> (r: &Presentation)
        requires
            index < self@.len(),
        ensures
            r@ =~= self@[index as int],
    {
        &self.list[index]
    }

    /// Appends a presentation at the back of the queue.
    pub fn push(&mut self, p: Presentation)
        ensures
            final(self)@ =~= old(self)@.push(p@),
    {
        self.list.push(p);
    }

    /// Removes and returns the front presentation; `None` leaves an empty
    /// queue untouched.
    pub fn pop(&mut self) -> (r: Option<Presentation>)
        ensures
            old(self)@.len() == 0 ==> r is None && final(self)@ =~= old(self)@,
            old(self)@.len() > 0 ==> (match r {
                Some(p) => p@ =~= old(self)@[0] && final(self)@ =~= old(self)@.skip(1),
                None => false,
            }),
    {
        if self.list.len() == 0 {
            None
        } else {
            Some(self.list.remove(0))
        }
    }

    /// Removes the entry at `index`; reports `false` and changes nothing
    /// when the index is out of range (a routine case of mistyped staff
    /// input, not an error).
    pub fn remove(&mut self, index: usize) -> (r: bool)
        ensures
            r == (index < old(self)@.len()),
            r ==> final(self)@ =~= old(self)@.remove(index as int),
            !r ==> final(self)@ =~= old(self)@,
    {
        if index < self.list.len() {
            self.list.remove(index);
            true
        } else {
            false
        }
    }

    /// Replaces the title of the entry at `index`; reports `false` and
    /// changes nothing when the index is out of range.
    pub fn update(&mut self, index: usize, new_title: String) -> (r: bool)
        ensures
            r == (index < old(self)@.len()),
            r ==> final(self)@ =~= old(self)@.update(
                index as int,
                PresentationView { title: new_title@, ..old(self)@[index as int] },
            ),
            !r ==> final(self)@ =~= old(self)@,
    {
        if index < self.list.len() {
            let entry = &mut self.list[index];
            entry.title = new_title;
            true
        } else {
            false
        }
    }

    /// Mutable access to the entry at `index`, `None` when out of range.
    pub fn get_mut(&mut self, index: usize) -> (r: Option<&mut Presentation>)
        ensures
            match r {
                Some(p) => {
                    &&& index < old(self)@.len()
                    &&& *p == old(self).entry_at(index as int)
                    &&& final(self)@ =~= old(self)@.update(index as int, final(p)@)
                },
                None => {
                    &&& index >= old(self)@.len()
                    &&& final(self)@ =~= old(self)@
                },
            },
    {
        if index < self.list.len() {
            Some(&mut self.list[index])
        } else {
            None
        }
    }

    /// The concrete entry stored at `i` (a helper for contracts that must
    /// speak of the stored value, not only of its view).
    pub closed spec fn entry_at(&self, i: int) -> Presentation {
        self.list@[i]
    }

    /// Renders the queue for display.
    pub fn list(&self) -> (r: String)
        ensures
            r@ =~= spec_render_list(self@),
    {
        let n = self.list.len();
        let mut out = String::new();
        let mut i: usize = 0;
        while i < n
            invariant
                0 <= i <= n,
                n == self@.len(),
                out@ =~= spec_render_upto(self@, i as int),
            decreases n - i,
        {
            let ghost prev = out@;
            if i > 0 {
                out.append("\n");
            }
            let num = render_dec(i);
            out.append(num.as_str());
            out.append(": name: ");
            out.append(self.list[i].presenter.name.as_str());
            out.append(" title: ");
            out.append(self.list[i].title.as_str());
            proof {
                reveal_strlit("\n");
                let p = self@[i as int];
                assert(self.list@[i as int]@ == p);
                if i > 0 {
                    assert(out@ =~= prev + "\n"@ + spec_list_line(i as int, p));
                    assert("\n"@ =~= seq!['\n']);
                    assert(spec_render_upto(self@, i + 1) == spec_render_upto(self@, i as int)
                        + seq!['\n'] + spec_list_line(i as int, p));
                } else {
                    assert(out@ =~= spec_list_line(0, p));
                    assert(spec_render_upto(self@, 1) == spec_list_line(0, self@[0]));
                }
                assert(out@ =~= spec_render_upto(self@, i + 1));
            }
            i = i + 1;
        }
        proof {
            assert(spec_render_upto(self@, n as int) == spec_render_list(self@));
        }
        out
    }

    /// An ordered copy of every entry, for the overlay pending list
    /// and for the snapshot file.
    pub fn to_snapshot(&self) -> (r: Vec<Presentation>)
        ensures
            r.deep_view() =~= self@,
    {
        let n = self.list.len();
        let mut out: Vec<Presentation> = Vec::new();
        let mut i: usize = 0;
        while i < n
            invariant
                0 <= i <= n,
                n == self@.len(),
                out.deep_view() =~= self@.take(i as int),
            decreases n - i,
        {
            let ghost prevdv = out.deep_view();
            out.push(self.list[i].clone());
            proof {
                assert(out.deep_view() =~= prevdv.push(self.list@[i as int]@));
                assert(self@.take(i + 1) =~= self@.take(i as int).push(self@[i as int]));
            }
            i = i + 1;
        }
        proof {
            assert(self@.take(n as int) =~= self@);
        }
        out
    }
}

/// Removing the entry at a valid index drops exactly that entry: every
/// entry before it keeps its index, every entry after it shifts down by
/// one, and when no other entry equals the removed one, the removed
/// entry is gone from the queue altogether.
pub proof fn lemma_remove_shifts(q0: Seq<PresentationView>, i: int, q1: Seq<PresentationView>)
    requires
        0 <= i < q0.len(),
        q1 == q0.remove(i),
    ensures
        q1.len() == q0.len() - 1,
        forall|j: int| 0 <= j < i ==> q1[j] == q0[j],
        forall|j: int| i <= j < q1.len() ==> q1[j] == q0[j + 1],
        (forall|j: int| 0 <= j < q0.len() && j != i ==> q0[j] != q0[i]) ==> !q1.contains(q0[i]),
{
    assert(forall|j: int| i <= j < q1.len() ==> q1[j] == q0[j + 1]);
    if forall|j: int| 0 <= j < q0.len() && j != i ==> q0[j] != q0[i] {
        if q1.contains(q0[i]) {
            let k = choose|k: int| 0 <= k < q1.len() && q1[k] == q0[i];
            if k < i {
                assert(q0[k] == q0[i]);
            } else {
                assert(q0[k + 1] == q0[i]);
            }
            assert(false);
        }
    }
}

/// Pushing onto an empty queue and then popping yields exactly the
/// pushed presentation and leaves the queue empty again. The premises
/// are what `push` and `pop` promise of the queue in turn.
pub proof fn lemma_push_then_pop_on_empty(
    q0: Seq<PresentationView>,
    p: PresentationView,
    q1: Seq<PresentationView>,
    popped: PresentationView,
    q2: Seq<PresentationView>,
)
    requires
        q0.len() == 0,
        q1 == q0.push(p),
        popped == q1[0],
        q2 == q1.skip(1),
    ensures
        popped == p,
        q2 == q0,
{
    assert(q1.skip(1) =~= q0);
}

} // verus!
