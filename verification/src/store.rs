//! The store model: an ordered, append-only log of records. No update or
//! delete exists; an insert appends, and a scan lists everything in
//! insertion order.

use vstd::prelude::*;
use crate::errors::DBError;
use crate::record::{records_view, NameTagDB, NameTagDBView};

verus! {

/// The append-only record log.
pub struct Store {
    rows: Vec<NameTagDB>,
}

impl View for Store {
    type V = Seq<NameTagDBView>;

    closed spec fn view(&self) -> Seq<NameTagDBView> {
        records_view(self.rows@)
    }
}

impl Store {
    /// An empty store.
    pub fn new() -> (s: Store)
        ensures
            s@ == Seq::<NameTagDBView>::empty(),
    {
        let s = Store { rows: Vec::new() };
        proof {
            assert(s@ =~= Seq::<NameTagDBView>::empty());
        }
        s
    }

    /// How many records the store holds.
    pub fn len(&self) -> (n: usize)
        ensures
            n == self@.len(),
    {
        self.rows.len()
    }

    /// Append one record. The model log always has room, so the append
    /// always succeeds; a backing engine's write failure is what the
    /// insertion error stands for.
    pub fn insert(&mut self, r: NameTagDB) -> (res: Result<(), DBError>)
        ensures
            res is Ok,
            final(self)@ == old(self)@.push(r@),
    {
        let ghost pre = self@;
        self.rows.push(r);
        proof {
            assert(self@ =~= pre.push(self.rows@.last()@));
        }
        Ok(())
    }

    /// List every record, in storage order, field for field.
    pub fn scan_all(&self) -> (res: Result<Vec<NameTagDB>, DBError>)
        ensures
            match res {
                Ok(v) => records_view(v@) == self@,
                Err(_) => false,
            },
    {
        let mut out: Vec<NameTagDB> = Vec::new();
        let n = self.rows.len();
        let mut i: usize = 0;
        while i < n
            invariant
                i <= n,
                n == self.rows.len(),
                records_view(out@) == self@.subrange(0, i as int),
            decreases n - i,
        {
            let ghost pre = out@;
            let d = self.rows[i].duplicate();
            proof {
                assert(d@ == self.rows@[i as int]@);
            }
            out.push(d);
            i = i + 1;
            proof {
                assert(records_view(pre).len() == pre.len());
                assert(pre.len() == i - 1);
                assert(out@ == pre.push(d));
                assert(out@.len() == i);
                assert forall|j: int| 0 <= j < i implies records_view(out@)[j] == self@.subrange(
                    0,
                    i as int,
                )[j] by {
                    assert(records_view(out@)[j] == out@[j]@);
                    assert(self@.subrange(0, i as int)[j] == self@[j]);
                    assert(self@[j] == self.rows@[j]@);
                    if j < i - 1 {
                        assert(out@[j] == pre[j]);
                        assert(records_view(pre)[j] == pre[j]@);
                        assert(pre[j]@ == self@.subrange(0, i - 1)[j]);
                    } else {
                        assert(out@[j] == d);
                    }
                }
                assert(records_view(out@) =~= self@.subrange(0, i as int));
            }
        }
        proof {
            assert(records_view(out@) =~= self@);
        }
        Ok(out)
    }
}

/// Law: inserting a record and then scanning lists every earlier record
/// unchanged and in place, and lists the new record last — the round trip
/// loses and reorders nothing.
pub proof fn lemma_insert_scan_roundtrip(pre: Seq<NameTagDBView>, r: NameTagDBView)
    ensures
        pre.push(r).len() == pre.len() + 1,
        pre.push(r)[pre.len() as int] == r,
        forall|i: int| 0 <= i < pre.len() ==> pre.push(r)[i] == pre[i],
{
}

} // verus!
