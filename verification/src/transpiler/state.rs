//! The compilation state: the heap allocation table, which gives every
//! declared name a cell range in the target machine's linear heap, and the
//! label counter, which hands out fresh jump labels.

use vstd::prelude::*;
use crate::transpiler::LoweringError;
use crate::transpiler::VariableType;

verus! {

/// The number of heap cells a value of type `t` occupies.
pub open spec fn spec_size(t: VariableType) -> int {
    match t {
        VariableType::Int => 4,
        VariableType::String(n) => n as int,
        VariableType::Float => 4,
        VariableType::Char => 1,
        VariableType::Bool => 1,
    }
}

/// Only integers and strings can be given a heap cell.
pub open spec fn allocatable(t: VariableType) -> bool {
    match t {
        VariableType::Int => true,
        VariableType::String(_) => true,
        _ => false,
    }
}

/// One allocation as the table's mathematical view records it: the name,
/// the cell offset and the declared type, in allocation order.
pub type AllocEntry = (Seq<char>, int, VariableType);

/// The last allocation under `name`, or `None` when the name has none.  A
/// later declaration of the same name shadows the earlier one; the earlier
/// cell is never reclaimed.
pub open spec fn spec_lookup(s: Seq<AllocEntry>, name: Seq<char>) -> Option<(int, VariableType)>
    decreases s.len(),
{
    if s.len() == 0 {
        None
    } else if s.last().0 == name {
        Some((s.last().1, s.last().2))
    } else {
        spec_lookup(s.drop_last(), name)
    }
}

/// Well-formedness of one table entry: its type can be allocated, it takes
/// at least one cell, and its cells end before the next entry's cells
/// begin (before the free cursor, for the last entry).
pub open spec fn wf_entry(s: Seq<AllocEntry>, cursor: int, i: int) -> bool {
    &&& allocatable(s[i].2)
    &&& spec_size(s[i].2) >= 1
    &&& 0 <= s[i].1
    &&& s[i].1 + spec_size(s[i].2) <= (if i + 1 < s.len() {
        s[i + 1].1
    } else {
        cursor
    })
}

/// Well-formedness of the whole table: every entry is well formed, so the
/// offsets strictly increase in allocation order and no two allocations
/// overlap.
pub open spec fn heap_wf(s: Seq<AllocEntry>, cursor: int) -> bool {
    &&& 0 <= cursor
    &&& forall|i: int| 0 <= i < s.len() ==> #[trigger] wf_entry(s, cursor, i)
}

/// In a well-formed table, the cells of an earlier allocation end at or
/// before the cells of any later allocation begin: offsets strictly
/// increase and allocations never overlap.
pub proof fn lemma_offsets_strictly_increase(s: Seq<AllocEntry>, cursor: int, i: int, j: int)
    requires
        heap_wf(s, cursor),
        0 <= i < j < s.len(),
    ensures
        s[i].1 + spec_size(s[i].2) <= s[j].1,
        s[i].1 < s[j].1,
    decreases j - i,
{
    assert(wf_entry(s, cursor, i));
    assert(wf_entry(s, cursor, j));
    if i + 1 < j {
        lemma_offsets_strictly_increase(s, cursor, i + 1, j);
        assert(wf_entry(s, cursor, i + 1));
    }
}

/// Every allocation lies below the free cursor.
pub proof fn lemma_entries_below_cursor(s: Seq<AllocEntry>, cursor: int, i: int)
    requires
        heap_wf(s, cursor),
        0 <= i < s.len(),
    ensures
        s[i].1 + spec_size(s[i].2) <= cursor,
    decreases s.len() - i,
{
    assert(wf_entry(s, cursor, i));
    if i + 1 < s.len() {
        lemma_entries_below_cursor(s, cursor, i + 1);
        assert(wf_entry(s, cursor, i + 1));
    }
}

/// A looked-up variable is one of the table's entries.
pub proof fn lemma_lookup_is_entry(s: Seq<AllocEntry>, name: Seq<char>)
    requires
        spec_lookup(s, name) is Some,
    ensures
        exists|i: int|
            0 <= i < s.len() && #[trigger] s[i].1 == spec_lookup(s, name)->Some_0.0 && s[i].2
                == spec_lookup(s, name)->Some_0.1,
    decreases s.len(),
{
    if s.len() > 0 {
        if s.last().0 == name {
            assert(s[s.len() - 1].1 == spec_lookup(s, name)->Some_0.0);
        } else {
            lemma_lookup_is_entry(s.drop_last(), name);
            let i = choose|i: int|
                0 <= i < s.drop_last().len() && #[trigger] s.drop_last()[i].1 == spec_lookup(
                    s.drop_last(),
                    name,
                )->Some_0.0 && s.drop_last()[i].2 == spec_lookup(s.drop_last(), name)->Some_0.1;
            assert(s[i].1 == spec_lookup(s, name)->Some_0.0);
        }
    }
}

/// A variable found by lookup in a well-formed table has a cell range
/// below the cursor, of an allocatable type with at least one cell.
pub proof fn lemma_lookup_in_wf(heap: Seq<AllocEntry>, cursor: int, name: Seq<char>)
    requires
        heap_wf(heap, cursor),
        spec_lookup(heap, name) is Some,
    ensures
        0 <= spec_lookup(heap, name)->Some_0.0,
        spec_lookup(heap, name)->Some_0.0 + spec_size(spec_lookup(heap, name)->Some_0.1) <= cursor,
        allocatable(spec_lookup(heap, name)->Some_0.1),
        spec_size(spec_lookup(heap, name)->Some_0.1) >= 1,
{
    lemma_lookup_is_entry(heap, name);
    let i = choose|i: int|
        0 <= i < heap.len() && #[trigger] heap[i].1 == spec_lookup(heap, name)->Some_0.0 && heap[
            i
        ].2 == spec_lookup(heap, name)->Some_0.1;
    assert(wf_entry(heap, cursor, i));
    lemma_entries_below_cursor(heap, cursor, i);
}

/// One allocated variable: its first cell's offset and its declared type.
#[derive(Clone, Copy, Debug)]
pub struct HeapVariable {
    offset: i32,
    type_: VariableType,
}

impl HeapVariable {
    pub closed spec fn spec_offset(self) -> int {
        self.offset as int
    }

    pub closed spec fn spec_type(self) -> VariableType {
        self.type_
    }

    pub fn offset(&self) -> (r: i32)
        ensures
            r as int == self.spec_offset(),
    {
        self.offset
    }

    pub fn type_(&self) -> (r: VariableType)
        ensures
            r == self.spec_type(),
    {
        self.type_
    }
}

/// The allocation table: every declaration in order, with a cursor that
/// always points at the first free cell.
pub struct HeapAllocation {
    entries: Vec<(String, HeapVariable)>,
    offset: i32,
}

impl View for HeapAllocation {
    type V = Seq<AllocEntry>;

    closed spec fn view(&self) -> Seq<AllocEntry> {
        self.entries@.map(
            |i: int, e: (String, HeapVariable)| (e.0@, e.1.offset as int, e.1.type_),
        )
    }
}

impl HeapAllocation {
    pub closed spec fn cursor(self) -> int {
        self.offset as int
    }

    pub open spec fn wf(self) -> bool {
        heap_wf(self@, self.cursor())
    }

    pub fn new() -> (r: HeapAllocation)
        ensures
            r@ == Seq::<AllocEntry>::empty(),
            r.cursor() == 0,
            r.wf(),
    {
        let r = HeapAllocation { entries: Vec::new(), offset: 0 };
        assert(r@ =~= Seq::<AllocEntry>::empty());
        r
    }

    /// Gives `name` the next free cells for a value of type `type_` and
    /// returns the first cell's offset; integers take four cells, a string
    /// one cell per declared unit of capacity.  Fails for the type tags
    /// that cannot be allocated.  A name already in the table is shadowed,
    /// not reused.
    pub fn allocate(&mut self, name: String, type_: VariableType) -> (r: Result<
        i32,
        LoweringError,
    >)
        requires
            old(self).wf(),
            allocatable(type_) ==> old(self).cursor() + spec_size(type_) <= i32::MAX,
            type_ matches VariableType::String(n) ==> n >= 1,
        ensures
            final(self).wf(),
            match r {
                Ok(off) => allocatable(type_) && off as int == old(self).cursor() && final(self)@
                    == old(self)@.push((name@, old(self).cursor(), type_)) && final(self).cursor()
                    == old(self).cursor() + spec_size(type_),
                Err(e) => !allocatable(type_) && e == LoweringError::UnsupportedType
                    && final(self)@ == old(self)@ && final(self).cursor() == old(self).cursor(),
            },
    {
        let offset = self.offset;
        match type_ {
            VariableType::Int => {
                self.offset = self.offset + 4;
            },
            VariableType::String(capacity) => {
                self.offset = self.offset + (capacity as i32);
            },
            _ => {
                return Err(LoweringError::UnsupportedType);
            },
        }
        self.entries.push((name, HeapVariable { offset, type_ }));
        proof {
            let oldv = old(self)@;
            let newv = self@;
            assert(newv =~= oldv.push((name@, offset as int, type_)));
            assert forall|i: int| 0 <= i < newv.len() implies #[trigger] wf_entry(
                newv,
                self.cursor(),
                i,
            ) by {
                if i < oldv.len() {
                    assert(wf_entry(oldv, old(self).cursor(), i));
                }
            }
        }
        Ok(offset)
    }

    /// The variable `name` was last declared as, or `None` when it was
    /// never declared.
    pub fn get(&self, name: &String) -> (r: Option<&HeapVariable>)
        ensures
            match r {
                Some(hv) => spec_lookup(self@, name@) == Some((hv.spec_offset(), hv.spec_type())),
                None => spec_lookup(self@, name@) is None,
            },
    {
        let n = self.entries.len();
        let mut i: usize = n;
        assert(self@.take(n as int) =~= self@);
        while i > 0
            invariant
                0 <= i <= n,
                n == self.entries.len(),
                spec_lookup(self@, name@) == spec_lookup(self@.take(i as int), name@),
            decreases i,
        {
            i = i - 1;
            if self.entries[i].0.eq(name) {
                proof {
                    let pre = self@.take(i + 1 as int);
                    assert(pre.last().0 == name@);
                }
                return Some(&self.entries[i].1);
            }
            proof {
                let pre = self@.take(i + 1 as int);
                assert(pre.last().0 != name@);
                assert(pre.drop_last() =~= self@.take(i as int));
            }
        }
        assert(self@.take(0) =~= Seq::<AllocEntry>::empty());
        None
    }
}

/// Every offset in a table's view is the value of a machine-width field,
/// so it lies within the machine's integer range.
pub proof fn lemma_view_offsets_bounded(h: HeapAllocation)
    ensures
        forall|i: int|
            0 <= i < h@.len() ==> i32::MIN <= #[trigger] h@[i].1 <= i32::MAX,
{
    assert forall|i: int| 0 <= i < h@.len() implies i32::MIN <= #[trigger] h@[i].1
        <= i32::MAX by {
        assert(h@[i].1 == h.entries@[i].1.offset as int);
    }
}

/// The mathematical content of a [`State`]: the allocation table's
/// entries, its free cursor, and the next fresh label.
pub ghost struct StateModel {
    pub heap: Seq<AllocEntry>,
    pub cursor: int,
    pub label: int,
}

impl StateModel {
    pub open spec fn wf(self) -> bool {
        heap_wf(self.heap, self.cursor) && 0 <= self.label
    }
}

/// The single compilation state threaded through lowering: the allocation
/// table and the label counter.
pub struct State {
    pub heap_allocation_map: HeapAllocation,
    pub current_label_n: i32,
}

impl State {
    pub open spec fn spec_label_counter(self) -> int {
        self.current_label_n as int
    }

    pub open spec fn model(self) -> StateModel {
        StateModel {
            heap: self.heap_allocation_map@,
            cursor: self.heap_allocation_map.cursor(),
            label: self.spec_label_counter(),
        }
    }

    pub open spec fn wf(self) -> bool {
        self.heap_allocation_map.wf() && 0 <= self.spec_label_counter()
    }

    pub fn new() -> (r: State)
        ensures
            r.wf(),
            r.model().heap == Seq::<AllocEntry>::empty(),
            r.model().cursor == 0,
            r.model().label == 0,
    {
        State { heap_allocation_map: HeapAllocation::new(), current_label_n: 0 }
    }

    /// Hands out the next label; labels are unique within one state and
    /// are never reused.
    pub fn get_label(&mut self) -> (r: i32)
        requires
            old(self).spec_label_counter() < i32::MAX,
        ensures
            r as int == old(self).spec_label_counter(),
            final(self).spec_label_counter() == old(self).spec_label_counter() + 1,
            final(self).heap_allocation_map == old(self).heap_allocation_map,
    {
        let label = self.current_label_n;
        self.current_label_n = self.current_label_n + 1;
        label
    }
}

} // verus!
