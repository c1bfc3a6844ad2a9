//! The data-source capability: a sequential, stateful stream of
//! (input, target) training pairs, with a count of what remains.
use vstd::prelude::*;
use crate::vector::Vector;

verus! {

/// The views of a sequence of training pairs.
pub open spec fn pair_views(s: Seq<(Vector, Vector)>) -> Seq<(Seq<u64>, Seq<u64>)> {
    Seq::new(s.len(), |i: int| (s[i].0@, s[i].1@))
}

/// A sequential stream of (input, target) pairs. `stream` is the sequence
/// of pairs still to come; `len` says how many remain; `next` hands out
/// the first of them, with no rewind.
pub trait DataSource: Sized {
    /// The pairs still to come. An implementation outside the library that
    /// leaves this default in place promises nothing about what `next`
    /// hands out.
    open spec fn stream(&self) -> Seq<(Seq<u64>, Seq<u64>)> {
        Seq::empty()
    }

    fn len(&self) -> (n: usize)
        ensures
            n == self.stream().len(),
    ;

    fn next(&mut self) -> (r: Option<(Vector, Vector)>)
        ensures
            match r {
                Some(p) => old(self).stream().len() > 0 && p.0@ == old(self).stream()[0].0 && p.1@
                    == old(self).stream()[0].1 && final(self).stream() == old(self).stream().skip(
                    1,
                ),
                None => old(self).stream().len() == 0 && final(self).stream() == old(
                    self,
                ).stream(),
            },
    ;
}

/// An in-memory data source over an owned list of pairs, handed out in
/// order.
pub struct VecDataSource {
    items: Vec<(Vector, Vector)>,
    pos: usize,
}

impl VecDataSource {
    pub fn from_pairs(items: Vec<(Vector, Vector)>) -> (d: VecDataSource)
        ensures
            d.stream() == pair_views(items@),
    {
        let d = VecDataSource { items, pos: 0 };
        proof {
            assert(d.stream() =~= pair_views(d.items@));
        }
        d
    }
}

impl DataSource for VecDataSource {
    closed spec fn stream(&self) -> Seq<(Seq<u64>, Seq<u64>)> {
        if self.pos <= self.items.len() {
            pair_views(self.items@).skip(self.pos as int)
        } else {
            Seq::empty()
        }
    }

    fn len(&self) -> (n: usize) {
        if self.pos >= self.items.len() {
            0
        } else {
            self.items.len() - self.pos
        }
    }

    fn next(&mut self) -> (r: Option<(Vector, Vector)>) {
        if self.pos < self.items.len() {
            let p = &self.items[self.pos];
            let input = p.0.clone();
            let target = p.1.clone();
            self.pos = self.pos + 1;
            proof {
                assert(self.stream() =~= old(self).stream().skip(1));
            }
            Some((input, target))
        } else {
            None
        }
    }
}

} // verus!
