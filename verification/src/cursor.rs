//! Walking the component ids registered for a type, one entity at a time.

use vstd::prelude::*;

verus! {

/// The component ids of one type that are still to be looked at, in registration order.
pub struct ComponentCursor<'a> {
    ids: &'a [usize],
    pos: usize,
}

impl<'a> View for ComponentCursor<'a> {
    type V = Seq<usize>;

    closed spec fn view(&self) -> Seq<usize> {
        self.ids@.skip(self.pos as int)
    }
}

impl<'a> ComponentCursor<'a> {
    #[verifier::type_invariant]
    closed spec fn wf(&self) -> bool {
        self.pos <= self.ids@.len()
    }

    /// A cursor over all of `ids`.
    pub fn new(ids: &'a [usize]) -> (res: Self)
        ensures
            res@ == ids@,
    {
        let res = ComponentCursor { ids, pos: 0 };
        assert(res@ =~= ids@);
        res
    }

    /// Moves past ids until `f` gives a value for one, and returns that id with the value.
    ///
    /// The ids passed over are those `f` gave nothing for; when no id is left, the result is
    /// `None` and the cursor is empty.
    pub fn find_map<R>(&mut self, f: impl Fn(usize) -> Option<R>) -> (res: Option<(usize, R)>)
        requires
            forall|c: usize| call_requires(f, (c,)),
        ensures
            res is None ==> final(self)@ == Seq::<usize>::empty(),
            res is None ==> forall|i: int|
                0 <= i < old(self)@.len() ==> call_ensures(f, (#[trigger] old(self)@[i],), None),
            res matches Some((c, r)) ==> {
                let j = old(self)@.len() - final(self)@.len() - 1;
                &&& 0 <= j < old(self)@.len()
                &&& old(self)@[j] == c
                &&& call_ensures(f, (c,), Some(r))
                &&& final(self)@ == old(self)@.skip(j + 1)
                &&& forall|i: int| 0 <= i < j ==> call_ensures(f, (#[trigger] old(self)@[i],), None)
            },
    {
        proof {
            use_type_invariant(&*self);
        }
        let ghost start = self.pos as int;
        let ghost before = self@;
        let ghost ids = self.ids@;
        while self.pos < self.ids.len()
            invariant
                self.ids@ == ids,
                0 <= start <= self.pos <= ids.len(),
                before == self.ids@.skip(start),
                before == old(self)@,
                forall|c: usize| call_requires(f, (c,)),
                forall|i: int| start <= i < self.pos ==> call_ensures(f, (#[trigger] self.ids@[i],), None),
            decreases self.ids@.len() - self.pos,
        {
            let c: usize = self.ids[self.pos];
            self.pos = self.pos + 1;
            match f(c) {
                Some(r) => {
                    assert(self@ =~= before.skip(self.pos - start));
                    assert forall|i: int| 0 <= i < (self.pos - 1 - start) implies call_ensures(f, (#[trigger] before[i],), None) by {
                        assert(before[i] == self.ids@[start + i]);
                    }
                    let ghost j = before.len() - self@.len() - 1;
                    assert(j == self.pos - 1 - start);
                    assert(before[j] == c);
                    assert(self@ == before.skip(j + 1));

                    return Some((c, r));
                },
                None => {},
            }
        }
        assert(self@ =~= Seq::<usize>::empty());
        assert forall|i: int| 0 <= i < before.len() implies call_ensures(f, (#[trigger] before[i],), None) by {
            assert(before[i] == self.ids@[start + i]);
        }
        None
    }
}

} // verus!
