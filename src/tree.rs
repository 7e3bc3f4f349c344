//! Discovery of a process and all its descendants, one children listing at a time.
use vstd::prelude::*;

use crate::text::{parse_i32, parse_i32_spec, split_words, views, words};

verus! {

/// The process ids among `ws`, in order; words that are no `i32` are passed over.
pub open spec fn pids_of_words(ws: Seq<Seq<char>>) -> Seq<i32>
    decreases ws.len(),
{
    if ws.len() == 0 {
        seq![]
    } else {
        let front = pids_of_words(ws.drop_last());
        match parse_i32_spec(ws.last()) {
            Some(p) => front.push(p),
            None => front,
        }
    }
}

/// Reads the process ids of a children listing: its whitespace-separated words that are
/// integers, in order.
pub fn parse_children(text: &str) -> (r: Vec<i32>)
    ensures
        r@ == pids_of_words(words(text@)),
{
    let ws = split_words(text);
    let ghost all = views(ws@);
    let mut out: Vec<i32> = Vec::new();
    let mut i: usize = 0;
    while i < ws.len()
        invariant
            i <= ws.len(),
            all == views(ws@),
            out@ == pids_of_words(all.take(i as int)),
        decreases ws.len() - i,
    {
        assert(all.take(i + 1).drop_last() =~= all.take(i as int));
        match parse_i32(ws[i].as_str()) {
            Some(p) => {
                out.push(p);
            },
            None => {},
        }
        i = i + 1;
    }
    assert(all.take(i as int) =~= all);
    out
}

/// `found` extended by the ids of `children` that it does not hold yet, each once, in
/// their order.
pub open spec fn add_new(found: Seq<i32>, children: Seq<i32>) -> Seq<i32>
    decreases children.len(),
{
    if children.len() == 0 {
        found
    } else {
        let f = add_new(found, children.drop_last());
        if f.contains(children.last()) {
            f
        } else {
            f.push(children.last())
        }
    }
}

/// Adding children keeps what was found, in place, as a prefix, and adds no duplicate.
pub proof fn lemma_add_new(found: Seq<i32>, children: Seq<i32>)
    requires
        found.no_duplicates(),
    ensures
        add_new(found, children).no_duplicates(),
        add_new(found, children).len() >= found.len(),
        add_new(found, children).take(found.len() as int) == found,
        forall|c: i32| children.contains(c) ==> add_new(found, children).contains(c),
        forall|p: i32| #[trigger]
            add_new(found, children).contains(p) ==> found.contains(p) || children.contains(p),
    decreases children.len(),
{
    if children.len() > 0 {
        let rest = children.drop_last();
        lemma_add_new(found, rest);
        let f = add_new(found, rest);
        assert forall|c: i32| children.contains(c) implies add_new(found, children).contains(c) by {
            let j = choose|j: int| 0 <= j < children.len() && children[j] == c;
            if j < rest.len() {
                assert(rest[j] == c);
                assert(rest.contains(c));
            }
            if !f.contains(children.last()) {
                assert(f.push(children.last())[f.len() as int] == children.last());
                if f.contains(c) {
                    let k = choose|k: int| 0 <= k < f.len() && f[k] == c;
                    assert(f.push(children.last())[k] == c);
                }
            }
        }
        assert forall|p: i32| #[trigger]
            add_new(found, children).contains(p) implies found.contains(p) || children.contains(p) by {
            if f.contains(p) {
                if rest.contains(p) {
                    let j = choose|j: int| 0 <= j < rest.len() && rest[j] == p;
                    assert(children[j] == p);
                }
            } else {
                assert(children[children.len() - 1] == p);
            }
        }
        if !f.contains(children.last()) {
            assert(f.push(children.last()).take(found.len() as int) =~= f.take(found.len() as int));
        }
    } else {
        assert(found.take(found.len() as int) =~= found);
    }
}

/// The process set of a tree walk always starts with the root and holds no duplicate.
pub proof fn lemma_walk_keeps_root_first_and_distinct(found: Seq<i32>, children: Seq<i32>)
    requires
        found.len() > 0,
        found.no_duplicates(),
    ensures
        add_new(found, children)[0] == found[0],
        add_new(found, children).no_duplicates(),
{
    lemma_add_new(found, children);
    assert(add_new(found, children).take(found.len() as int)[0] == found[0]);
}

/// A walk over a process tree: the ids found so far, root first, and the ids whose
/// children are still to be listed. The caller lists the children of each id that
/// `next_pid` hands out and gives them to `add_children`, until `next_pid` gives none.
/// An id already found is not added again, which also ends walks over a listing that
/// reports a cycle.
pub struct TreeWalk {
    found: Vec<i32>,
    pending: Vec<i32>,
}

impl TreeWalk {
    pub closed spec fn found_ids(&self) -> Seq<i32> {
        self.found@
    }

    pub closed spec fn pending_ids(&self) -> Seq<i32> {
        self.pending@
    }

    /// The root comes first, and no id is found twice.
    pub open spec fn wf(&self) -> bool {
        &&& self.found_ids().len() > 0
        &&& self.found_ids().no_duplicates()
    }

    pub open spec fn root(&self) -> i32 {
        self.found_ids()[0]
    }

    /// A walk that starts at `root`.
    pub fn new(root: i32) -> (r: TreeWalk)
        ensures
            r.wf(),
            r.found_ids() == seq![root],
            r.pending_ids() == seq![root],
    {
        let r = TreeWalk { found: vec![root], pending: vec![root] };
        assert(r.found@ =~= seq![root]);
        r
    }

    /// The next id whose children are to be listed (the one last added), or `None` when
    /// the walk is over.
    pub fn next_pid(&mut self) -> (r: Option<i32>)
        requires
            old(self).wf(),
        ensures
            final(self).wf(),
            final(self).found_ids() == old(self).found_ids(),
            old(self).pending_ids().len() == 0 ==> r.is_none() && final(self).pending_ids()
                == old(self).pending_ids(),
            old(self).pending_ids().len() > 0 ==> r == Some(old(self).pending_ids().last())
                && final(self).pending_ids() == old(self).pending_ids().drop_last(),
    {
        self.pending.pop()
    }

    /// Adds the listed children of an id: each that was not found yet is found, and its
    /// own children are to be listed.
    pub fn add_children(&mut self, children: &Vec<i32>)
        requires
            old(self).wf(),
        ensures
            final(self).wf(),
            final(self).root() == old(self).root(),
            final(self).found_ids() == add_new(old(self).found_ids(), children@),
            final(self).pending_ids() == old(self).pending_ids() + add_new(
                old(self).found_ids(),
                children@,
            ).skip(old(self).found_ids().len() as int),
    {
        let ghost found0 = self.found@;
        let ghost pending0 = self.pending@;
        let mut i: usize = 0;
        while i < children.len()
            invariant
                i <= children.len(),
                found0.len() > 0,
                found0.no_duplicates(),
                self.found@ == add_new(found0, children@.take(i as int)),
                self.pending@ == pending0 + add_new(found0, children@.take(i as int)).skip(
                    found0.len() as int,
                ),
            decreases children.len() - i,
        {
            let c = children[i];
            let ghost before = self.found@;
            proof {
                assert(children@.take(i + 1).drop_last() =~= children@.take(i as int));
                lemma_add_new(found0, children@.take(i as int));
            }
            let mut known = false;
            let mut j: usize = 0;
            while j < self.found.len()
                invariant
                    j <= self.found.len(),
                    known == exists|k: int| 0 <= k < j && self.found@[k] == c,
                decreases self.found.len() - j,
            {
                if self.found[j] == c {
                    known = true;
                }
                j = j + 1;
            }
            if !known {
                self.found.push(c);
                self.pending.push(c);
                proof {
                    assert(self.pending@ =~= pending0 + add_new(
                        found0,
                        children@.take(i + 1),
                    ).skip(found0.len() as int));
                }
            } else {
                assert(before.contains(c));
            }
            i = i + 1;
        }
        proof {
            assert(children@.take(i as int) =~= children@);
            lemma_walk_keeps_root_first_and_distinct(found0, children@);
        }
    }

    /// The ids found so far, root first.
    pub fn pids(&self) -> (r: &Vec<i32>)
        ensures
            r@ == self.found_ids(),
    {
        &self.found
    }

    /// Ends the walk, giving the ids found, root first.
    pub fn into_pids(self) -> (r: Vec<i32>)
        ensures
            r@ == self.found_ids(),
    {
        self.found
    }
}

/// A process with no children: once its own listing is given, the walk is over and has
/// found that process alone.
pub proof fn lemma_childless_root(root: i32)
    ensures
        add_new(seq![root], seq![]) == seq![root],
        seq![root].drop_last() + add_new(seq![root], seq![]).skip(1) == Seq::<i32>::empty(),
{
    assert(seq![root].drop_last() + add_new(seq![root], seq![]).skip(1) =~= Seq::<i32>::empty());
}

} // verus!
