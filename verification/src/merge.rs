use vstd::prelude::*;

use crate::key::opt_bytes_view;

verus! {

/// The shared completion record: one slot per segment index, filled with the
/// path of the file holding that segment's bytes once its task is done.
/// Indices are bounded by the segment count, so the record is an array of
/// slots rather than a keyed map; each task writes its own slot and no other,
/// and the record grows monotonically until every dispatched index is present.
pub struct CompletionMap {
    slots: Vec<Option<Vec<u8>>>,
}

impl View for CompletionMap {
    type V = Seq<Option<Seq<u8>>>;

    closed spec fn view(&self) -> Seq<Option<Seq<u8>>> {
        Seq::new(self.slots@.len(), |i: int| opt_bytes_view(self.slots@[i]))
    }
}

impl CompletionMap {
    /// Every slot is filled: each dispatched task has recorded its result.
    pub open spec fn complete(&self) -> bool {
        forall|i: int| 0 <= i < self@.len() ==> self@[i] is Some
    }

    /// An empty record with one slot per segment.
    pub fn new(count: usize) -> (m: CompletionMap)
        ensures
            m@.len() == count,
            forall|i: int| 0 <= i < count ==> m@[i] is None,
    {
        let mut slots: Vec<Option<Vec<u8>>> = Vec::new();
        let mut i: usize = 0;
        while i < count
            invariant
                i <= count,
                slots@.len() == i,
                forall|j: int| 0 <= j < i ==> opt_bytes_view(#[trigger] slots@[j]) is None,
            decreases count - i,
        {
            slots.push(None);
            i = i + 1;
        }
        CompletionMap { slots }
    }

    /// How many slots the record has.
    pub fn len(&self) -> (n: usize)
        ensures
            n == self@.len(),
    {
        self.slots.len()
    }

    /// A task records the file that now holds its segment's bytes. Each task
    /// writes only its own index, so no slot is ever overwritten in a run.
    pub fn record(&mut self, index: usize, path: Vec<u8>)
        requires
            index < old(self)@.len(),
        ensures
            final(self)@ == old(self)@.update(index as int, Some(path@)),
    {
        self.slots.set(index, Some(path));
        proof {
            assert(self@ =~= old(self)@.update(index as int, Some(path@)));
        }
    }

    /// Is every slot filled?
    pub fn is_complete(&self) -> (r: bool)
        ensures
            r == self.complete(),
    {
        let n = self.slots.len();
        let mut i: usize = 0;
        while i < n
            invariant
                i <= n,
                n == self@.len(),
                forall|j: int| 0 <= j < i ==> self@[j] is Some,
            decreases n - i,
        {
            if self.slots[i].is_none() {
                proof {
                    assert(self@[i as int] is None);
                }
                return false;
            }
            i = i + 1;
        }
        true
    }

    /// The recorded paths in strictly ascending index order, whatever order
    /// they were recorded in: the order the merger reads files back in.
    pub fn merge_order(&self) -> (r: Vec<Vec<u8>>)
        requires
            self.complete(),
        ensures
            r@.len() == self@.len(),
            forall|i: int| 0 <= i < r@.len() ==> (#[trigger] r@[i])@ == self@[i]->0,
    {
        let n = self.slots.len();
        let mut out: Vec<Vec<u8>> = Vec::new();
        let mut i: usize = 0;
        while i < n
            invariant
                i <= n,
                n == self@.len(),
                self.complete(),
                out@.len() == i,
                forall|j: int| 0 <= j < i ==> (#[trigger] out@[j])@ == self@[j]->0,
            decreases n - i,
        {
            match &self.slots[i] {
                Some(p) => {
                    out.push(vstd::slice::slice_to_vec(p.as_slice()));
                },
                None => {
                    proof {
                        assert(self@[i as int] is Some);
                        assert(false);
                    }
                },
            }
            i = i + 1;
        }
        out
    }
}

/// Recording two different indices commutes: the record's final state does
/// not depend on the order tasks finish in.
pub proof fn lemma_record_commutes(s: Seq<Option<Seq<u8>>>, i: int, p: Seq<u8>, j: int, q: Seq<u8>)
    requires
        0 <= i < s.len(),
        0 <= j < s.len(),
        i != j,
    ensures
        s.update(i, Some(p)).update(j, Some(q)) == s.update(j, Some(q)).update(i, Some(p)),
{
    assert(s.update(i, Some(p)).update(j, Some(q)) =~= s.update(j, Some(q)).update(i, Some(p)));
}

/// One completion event: a task reports that the segment at this index now
/// sits in the file at this path.
pub struct RecordEvent {
    pub index: int,
    pub path: Seq<u8>,
}

/// The record state after the events of `rs`, applied first to last.
pub open spec fn apply_records(s: Seq<Option<Seq<u8>>>, rs: Seq<RecordEvent>) -> Seq<
    Option<Seq<u8>>,
>
    decreases rs.len(),
{
    if rs.len() == 0 {
        s
    } else {
        apply_records(s.update(rs[0].index, Some(rs[0].path)), rs.drop_first())
    }
}

/// Every event of `rs` names an index inside the record.
pub open spec fn events_in_range(rs: Seq<RecordEvent>, len: int) -> bool {
    forall|j: int| 0 <= j < rs.len() ==> 0 <= (#[trigger] rs[j]).index < len
}

/// No two events of `rs` name the same index: each task writes only its own.
pub open spec fn events_disjoint(rs: Seq<RecordEvent>) -> bool {
    forall|j: int, k: int| 0 <= j < k < rs.len() ==> (#[trigger] rs[j]).index != (#[trigger] rs[k]).index
}

/// Some event of `rs` writes index `k`.
pub open spec fn writes_index(rs: Seq<RecordEvent>, k: int) -> bool {
    exists|j: int| 0 <= j < rs.len() && (#[trigger] rs[j]).index == k
}

/// What a run of disjoint events leaves behind: each written index holds its
/// event's path, every other slot is untouched.
pub proof fn lemma_apply_records(s: Seq<Option<Seq<u8>>>, rs: Seq<RecordEvent>)
    requires
        events_in_range(rs, s.len() as int),
        events_disjoint(rs),
    ensures
        apply_records(s, rs).len() == s.len(),
        forall|j: int|
            0 <= j < rs.len() ==> apply_records(s, rs)[(#[trigger] rs[j]).index] == Some(
                rs[j].path,
            ),
        forall|k: int| 0 <= k < s.len() && !writes_index(rs, k) ==> apply_records(s, rs)[k] == s[k],
    decreases rs.len(),
{
    if rs.len() > 0 {
        let s1 = s.update(rs[0].index, Some(rs[0].path));
        let rest = rs.drop_first();
        assert forall|j: int, k: int| 0 <= j < k < rest.len() implies (#[trigger] rest[j]).index
            != (#[trigger] rest[k]).index by {
            assert(rest[j] == rs[j + 1]);
            assert(rest[k] == rs[k + 1]);
        }
        lemma_apply_records(s1, rest);
        assert forall|j: int| 0 <= j < rs.len() implies apply_records(s, rs)[(
        #[trigger] rs[j]).index] == Some(rs[j].path) by {
            if j == 0 {
                assert(!writes_index(rest, rs[0].index));
                assert(apply_records(s1, rest)[rs[0].index] == s1[rs[0].index]);
            } else {
                assert(rest[j - 1] == rs[j]);
            }
        }
        assert forall|k: int| 0 <= k < s.len() && !writes_index(rs, k) implies apply_records(
            s,
            rs,
        )[k] == s[k] by {
            assert(rs[0].index != k);
            assert(!writes_index(rest, k)) by {
                if writes_index(rest, k) {
                    let j = choose|j: int| 0 <= j < rest.len() && (#[trigger] rest[j]).index == k;
                    assert(rs[j + 1].index == k);
                }
            }
        }
    }
}

/// Order invariance: two runs that report the same completion events, in
/// whatever order the tasks happened to finish, leave identical records, so
/// the merged output is the same byte for byte.
pub proof fn lemma_record_order_invariant(
    s: Seq<Option<Seq<u8>>>,
    rs1: Seq<RecordEvent>,
    rs2: Seq<RecordEvent>,
)
    requires
        events_in_range(rs1, s.len() as int),
        events_in_range(rs2, s.len() as int),
        events_disjoint(rs1),
        events_disjoint(rs2),
        forall|e: RecordEvent| rs1.contains(e) <==> rs2.contains(e),
    ensures
        apply_records(s, rs1) == apply_records(s, rs2),
{
    lemma_apply_records(s, rs1);
    lemma_apply_records(s, rs2);
    assert forall|k: int| 0 <= k < s.len() implies apply_records(s, rs1)[k] == apply_records(
        s,
        rs2,
    )[k] by {
        if writes_index(rs1, k) {
            let j = choose|j: int| 0 <= j < rs1.len() && (#[trigger] rs1[j]).index == k;
            assert(rs1.contains(rs1[j]));
            assert(rs2.contains(rs1[j]));
            let j2 = choose|j2: int| 0 <= j2 < rs2.len() && rs2[j2] == rs1[j];
            assert(writes_index(rs2, k));
            let j3 = choose|j3: int| 0 <= j3 < rs2.len() && (#[trigger] rs2[j3]).index == k;
            assert(rs2[j3].index == rs2[j2].index);
            assert(rs2[j3] == rs2[j2]) by {
                if j3 != j2 {
                    assert(false);
                }
            }
            assert(apply_records(s, rs1)[k] == Some(rs1[j].path));
            assert(apply_records(s, rs2)[k] == Some(rs2[j3].path));
        } else {
            assert(!writes_index(rs2, k)) by {
                if writes_index(rs2, k) {
                    let j2 = choose|j2: int| 0 <= j2 < rs2.len() && (#[trigger] rs2[j2]).index
                        == k;
                    assert(rs2.contains(rs2[j2]));
                    assert(rs1.contains(rs2[j2]));
                    let j1 = choose|j1: int| 0 <= j1 < rs1.len() && rs1[j1] == rs2[j2];
                    assert(writes_index(rs1, k));
                }
            }
        }
    }
    assert(apply_records(s, rs1) =~= apply_records(s, rs2));
}

/// The bytes of the parts, joined in the order given.
pub open spec fn concat_bytes(parts: Seq<Seq<u8>>) -> Seq<u8>
    decreases parts.len(),
{
    if parts.len() == 0 {
        Seq::empty()
    } else {
        concat_bytes(parts.drop_last()) + parts.last()
    }
}

/// Joins the segments' bytes in the order given: handed the files' contents
/// in ascending index order, this is the merged output, byte for byte.
pub fn concat_segments(parts: &Vec<Vec<u8>>) -> (out: Vec<u8>)
    ensures
        out@ == concat_bytes(parts.deep_view()),
{
    let n = parts.len();
    let mut out: Vec<u8> = Vec::new();
    let mut i: usize = 0;
    proof {
        assert(parts.deep_view().subrange(0, 0) =~= Seq::<Seq<u8>>::empty());
    }
    while i < n
        invariant
            i <= n,
            n == parts@.len(),
            parts.deep_view().len() == n,
            out@ == concat_bytes(parts.deep_view().subrange(0, i as int)),
        decreases n - i,
    {
        out.extend_from_slice(parts[i].as_slice());
        proof {
            let dv = parts.deep_view();
            assert(dv.subrange(0, i + 1).drop_last() =~= dv.subrange(0, i as int));
            assert(dv.subrange(0, i + 1).last() =~= parts@[i as int]@);
            assert(out@ =~= concat_bytes(dv.subrange(0, i + 1)));
        }
        i = i + 1;
    }
    proof {
        assert(parts.deep_view().subrange(0, n as int) =~= parts.deep_view());
    }
    out
}

} // verus!
