//! The tables that the trace decoder reads: which object a virtual address
//! belongs to, where the executable segments are, and what the compiler has
//! said of each basic block of the main object. They are built once, before
//! decoding starts, and only read afterwards.

use intervaltree::IntervalTree;
use vstd::multiset::Multiset;
use vstd::prelude::*;

verus! {

broadcast use vstd::seq_lib::group_to_multiset_ensures;

/// `intervaltree`'s immutable interval tree. Nothing of its insides is known
/// here.
#[verifier::external_type_specification]
#[verifier::external_body]
#[verifier::reject_recursive_types(K)]
#[verifier::reject_recursive_types(V)]
pub struct ExIntervalTree<K, V>(IntervalTree<K, V>);

/// The elements of an interval tree over addresses, each as the start of its
/// range, the end of its range, which is not part of the range, and its
/// value.
pub uninterp spec fn tree_elements(t: IntervalTree<usize, usize>) -> Multiset<(usize, usize, usize)>;

/// `IntervalTree`'s `FromIterator`: the tree holds the elements it is built
/// from, each as often as it is given.
#[verifier::external_body]
fn tree_from_vec(elems: &Vec<(usize, usize, usize)>) -> (t: IntervalTree<usize, usize>)
    ensures
        tree_elements(t) == elems@.to_multiset(),
{
    elems.iter().map(|e| (e.0..e.1, e.2)).collect()
}

/// `IntervalTree::query_point`: the elements of the tree whose range
/// contains `point`, in no particular order.
#[verifier::external_body]
fn tree_query_point(t: &IntervalTree<usize, usize>, point: usize) -> (r: Vec<(usize, usize, usize)>)
    ensures
        holds_hits(r@, tree_elements(*t), point),
{
    t.query_point(point).map(|e| (e.range.start, e.range.end, e.value)).collect()
}

/// `hits` holds the elements of `all` whose range contains `point`, each as
/// often as `all` does, and nothing else.
pub open spec fn holds_hits(
    hits: Seq<(usize, usize, usize)>,
    all: Multiset<(usize, usize, usize)>,
    point: usize,
) -> bool {
    forall|e: (usize, usize, usize)|
        #[trigger] hits.to_multiset().count(e) == if e.0 <= point && point < e.1 {
            all.count(e)
        } else {
            0
        }
}

/// Do the ranges of `elems` keep clear of each other?
pub open spec fn disjoint(elems: Seq<(usize, usize, usize)>) -> bool {
    forall|i: int, j: int|
        0 <= i < j < elems.len() ==> (#[trigger] elems[i]).1 <= (#[trigger] elems[j]).0 || elems[j].1
            <= elems[i].0 || elems[i].0 >= elems[i].1 || elems[j].0 >= elems[j].1
}

/// A map from virtual addresses to the index of the range they lie in. The
/// ranges keep clear of each other, so an address lies in one at most.
pub struct RangeMap {
    tree: IntervalTree<usize, usize>,
    elems: Vec<(usize, usize, usize)>,
}

impl RangeMap {
    /// The ranges, each with its start, its end, which is not part of it,
    /// and its index.
    pub closed spec fn ranges(&self) -> Seq<(usize, usize, usize)> {
        self.elems@
    }

    /// The tree holds the ranges, which are numbered in order and keep clear
    /// of each other.
    pub closed spec fn wf(&self) -> bool {
        &&& tree_elements(self.tree) == self.elems@.to_multiset()
        &&& forall|i: int| 0 <= i < self.elems@.len() ==> (#[trigger] self.elems@[i]).2 == i
        &&& disjoint(self.elems@)
    }

    /// The index of the range in which `vaddr` lies.
    pub open spec fn spec_find(&self, vaddr: usize) -> Option<usize> {
        if exists|i: int| self.holds(i, vaddr) {
            Some((choose|i: int| self.holds(i, vaddr)) as usize)
        } else {
            None
        }
    }

    /// Does `vaddr` lie in the range of index `i`?
    pub open spec fn holds(&self, i: int, vaddr: usize) -> bool {
        0 <= i < self.ranges().len() && self.ranges()[i].0 <= vaddr < self.ranges()[i].1
    }

    /// An address lies in one range at most.
    pub proof fn lemma_unique(&self, i: int, j: int, vaddr: usize)
        requires
            self.wf(),
            self.holds(i, vaddr),
            self.holds(j, vaddr),
        ensures
            i == j,
    {
        if i < j {
            assert(self.elems@[i].1 <= self.elems@[j].0 || self.elems@[j].1 <= self.elems@[i].0
                || self.elems@[i].0 >= self.elems@[i].1 || self.elems@[j].0 >= self.elems@[j].1);
        } else if j < i {
            assert(self.elems@[j].1 <= self.elems@[i].0 || self.elems@[i].1 <= self.elems@[j].0
                || self.elems@[j].0 >= self.elems@[j].1 || self.elems@[i].0 >= self.elems@[i].1);
        }
    }

    /// Build the map of the ranges `ranges`, each given by its start and its
    /// end, which is not part of it. `None` if two of them overlap.
    pub fn new(ranges: &Vec<(usize, usize)>) -> (r: Option<Self>)
        ensures
            match r {
                Some(m) => {
                    &&& m.wf()
                    &&& m.ranges().len() == ranges@.len()
                    &&& forall|i: int|
                        0 <= i < ranges@.len() ==> #[trigger] m.ranges()[i] == (
                            ranges@[i].0,
                            ranges@[i].1,
                            i as usize,
                        )
                },
                None => exists|i: int, j: int|
                    0 <= i < j < ranges@.len() && overlap(#[trigger] ranges@[i], #[trigger] ranges@[j]),
            },
            r is Some <==> !overlapping(ranges@),
    {
        let mut elems: Vec<(usize, usize, usize)> = Vec::new();
        let mut i: usize = 0;
        while i < ranges.len()
            invariant
                i <= ranges@.len(),
                elems@.len() == i,
                forall|a: int, b: int|
                    0 <= a < b < i ==> !overlap(#[trigger] ranges@[a], #[trigger] ranges@[b]),
                forall|k: int|
                    0 <= k < i ==> #[trigger] elems@[k] == (ranges@[k].0, ranges@[k].1, k as usize),
                disjoint(elems@),
            decreases ranges@.len() - i,
        {
            let (s, e) = ranges[i];
            let mut j: usize = 0;
            while j < i
                invariant
                    j <= i,
                    i < ranges@.len(),
                    (s, e) == ranges@[i as int],
                    forall|k: int| 0 <= k < j ==> !overlap(#[trigger] ranges@[k], ranges@[i as int]),
                decreases i - j,
            {
                let (s2, e2) = ranges[j];
                if s < e && s2 < e2 && s < e2 && s2 < e {
                    proof {
                        assert(overlap(ranges@[j as int], ranges@[i as int]));
                    }
                    return None;
                }
                j = j + 1;
            }
            let ghost prev = elems@;
            elems.push((s, e, i));
            proof {
                assert forall|a: int, b: int| 0 <= a < b < elems@.len() implies (
                #[trigger] elems@[a]).1 <= (#[trigger] elems@[b]).0 || elems@[b].1 <= elems@[a].0
                    || elems@[a].0 >= elems@[a].1 || elems@[b].0 >= elems@[b].1 by {
                    if b == i as int {
                        assert(elems@[a] == prev[a]);
                        assert(!overlap(ranges@[a], ranges@[i as int]));
                    } else {
                        assert(elems@[a] == prev[a]);
                        assert(elems@[b] == prev[b]);
                    }
                }
            }
            i = i + 1;
        }
        let tree = tree_from_vec(&elems);
        Some(RangeMap { tree, elems })
    }

    /// The number of ranges.
    pub fn len(&self) -> (n: usize)
        ensures
            n == self.ranges().len(),
    {
        self.elems.len()
    }

    /// The range of index `i`.
    pub fn range(&self, i: usize) -> (r: (usize, usize))
        requires
            i < self.ranges().len(),
        ensures
            r == (self.ranges()[i as int].0, self.ranges()[i as int].1),
    {
        let e = self.elems[i];
        (e.0, e.1)
    }

    /// Find the range in which `vaddr` lies.
    pub fn find(&self, vaddr: usize) -> (r: Option<usize>)
        requires
            self.wf(),
        ensures
            r == self.spec_find(vaddr),
            match r {
                Some(i) => self.holds(i as int, vaddr),
                None => forall|i: int| !self.holds(i, vaddr),
            },
    {
        let hits = tree_query_point(&self.tree, vaddr);
        if hits.len() == 0 {
            proof {
                assert forall|i: int| !self.holds(i, vaddr) by {
                    if self.holds(i, vaddr) {
                        let e = self.elems@[i];
                        assert(self.elems@.contains(e));
                        assert(self.elems@.to_multiset().count(e) > 0);
                        assert(hits@.to_multiset().count(e) > 0);
                        assert(hits@.contains(e));
                    }
                }
            }
            None
        } else {
            let e = hits[0];
            proof {
                assert(hits@.contains(e));
                assert(hits@.to_multiset().count(e) > 0);
                assert(self.elems@.to_multiset().count(e) > 0);
                assert(self.elems@.contains(e));
                let i = choose|i: int| 0 <= i < self.elems@.len() && self.elems@[i] == e;
                assert(self.elems@[i].2 == i);
                assert(self.holds(i, vaddr));
                let c = choose|c: int| self.holds(c, vaddr);
                self.lemma_unique(i, c, vaddr);
            }
            Some(e.2)
        }
    }
}

/// Do the two ranges have an address in common?
pub open spec fn overlap(a: (usize, usize), b: (usize, usize)) -> bool {
    a.0 < a.1 && b.0 < b.1 && a.0 < b.1 && b.0 < a.1
}

/// Do two of the ranges `ranges` have an address in common?
pub open spec fn overlapping(ranges: Seq<(usize, usize)>) -> bool {
    exists|i: int, j: int|
        0 <= i < j < ranges.len() && overlap(#[trigger] ranges[i], #[trigger] ranges[j])
}

/// A call in a basic block.
#[derive(Debug, Clone, Copy, PartialEq, Eq, Structural)]
pub struct CallInfo {
    /// The address of the call instruction.
    pub callsite_vaddr: usize,
    /// The address of the instruction after the call.
    pub return_vaddr: usize,
    /// The address of the callee, if the compiler knew it.
    pub target_vaddr: Option<usize>,
    /// Does the call name its callee in the instruction?
    pub is_direct: bool,
}

/// Where control goes from the end of a basic block.
#[derive(Debug, Clone, Copy, PartialEq, Eq, Structural)]
pub enum SuccessorKind {
    /// To `target`, always.
    Unconditional { target: usize },
    /// To `taken_target` if one of the `num_cond_brs` conditional branches
    /// that end the block is taken, else to `not_taken_target`.
    Conditional { num_cond_brs: u8, taken_target: usize, not_taken_target: usize },
    /// Back to the caller.
    Return,
    /// Somewhere that is only known when the program runs.
    Dynamic,
}

/// What the compiler has said of a basic block.
#[derive(Debug)]
pub struct BlockMapEntry {
    /// The calls in the block, in the order of their addresses.
    pub call_vaddrs: Vec<CallInfo>,
    /// Where control goes from the end of the block.
    pub successor: SuccessorKind,
}

impl BlockMapEntry {
    /// A block ends in one or two conditional branches, if it ends in any.
    pub open spec fn wf(&self) -> bool {
        match self.successor {
            SuccessorKind::Conditional { num_cond_brs, .. } => 1 <= num_cond_brs <= 2,
            _ => true,
        }
    }

    /// The first call of the block at or after `vaddr`.
    pub open spec fn spec_next_call(&self, vaddr: usize, from: int) -> Option<CallInfo>
        decreases self.call_vaddrs@.len() - from,
    {
        if from < 0 || from >= self.call_vaddrs@.len() {
            None
        } else if self.call_vaddrs@[from].callsite_vaddr >= vaddr {
            Some(self.call_vaddrs@[from])
        } else {
            self.spec_next_call(vaddr, from + 1)
        }
    }

    /// Find the first call of the block at or after `vaddr`.
    pub fn next_call(&self, vaddr: usize) -> (r: Option<CallInfo>)
        ensures
            r == self.spec_next_call(vaddr, 0),
    {
        let mut i: usize = 0;
        while i < self.call_vaddrs.len()
            invariant
                i <= self.call_vaddrs@.len(),
                self.spec_next_call(vaddr, 0) == self.spec_next_call(vaddr, i as int),
            decreases self.call_vaddrs@.len() - i,
        {
            if self.call_vaddrs[i].callsite_vaddr >= vaddr {
                return Some(self.call_vaddrs[i]);
            }
            i = i + 1;
        }
        None
    }
}

/// The basic blocks of the main object that the compiler has described, by
/// address.
pub struct BlockMap {
    pub map: RangeMap,
    pub entries: Vec<BlockMapEntry>,
}

impl BlockMap {
    /// Every range has its entry, and the entries are well formed.
    pub open spec fn wf(&self) -> bool {
        &&& self.map.wf()
        &&& self.map.ranges().len() == self.entries@.len()
        &&& forall|i: int| 0 <= i < self.entries@.len() ==> (#[trigger] self.entries@[i]).wf()
    }

    /// The block that holds `vaddr`, as the range of addresses that the
    /// compiler has given for it.
    pub open spec fn spec_block(&self, vaddr: usize) -> crate::block::Block {
        match self.map.spec_find(vaddr) {
            Some(i) => crate::block::Block::VAddrRange {
                first_inst: self.map.ranges()[i as int].0,
                last_inst: self.map.ranges()[i as int].1,
            },
            None => crate::block::Block::Unknown,
        }
    }

    /// Build the block map of the blocks `blocks`, each given by the range of
    /// its addresses and what the compiler has said of it. `None` if two
    /// ranges overlap or a block ends in a number of conditional branches
    /// other than one or two.
    pub fn new(ranges: &Vec<(usize, usize)>, entries: Vec<BlockMapEntry>) -> (r: Option<Self>)
        ensures
            match r {
                Some(b) => {
                    &&& b.wf()
                    &&& b.entries == entries
                    &&& b.map.ranges().len() == ranges@.len()
                    &&& forall|i: int|
                        0 <= i < ranges@.len() ==> #[trigger] b.map.ranges()[i] == (
                            ranges@[i].0,
                            ranges@[i].1,
                            i as usize,
                        )
                },
                None => true,
            },
            r is Some <==> {
                &&& ranges@.len() == entries@.len()
                &&& forall|i: int| 0 <= i < entries@.len() ==> (#[trigger] entries@[i]).wf()
                &&& !overlapping(ranges@)
            },
    {
        if ranges.len() != entries.len() {
            return None;
        }
        let mut i: usize = 0;
        while i < entries.len()
            invariant
                i <= entries@.len(),
                forall|k: int| 0 <= k < i ==> (#[trigger] entries@[k]).wf(),
            decreases entries@.len() - i,
        {
            if let SuccessorKind::Conditional { num_cond_brs, .. } = entries[i].successor {
                if num_cond_brs < 1 || num_cond_brs > 2 {
                    proof {
                        assert(!entries@[i as int].wf());
                    }
                    return None;
                }
            }
            i = i + 1;
        }
        match RangeMap::new(ranges) {
            Some(map) => Some(BlockMap { map, entries }),
            None => None,
        }
    }

    /// Look up the entry of the block that holds `vaddr`.
    pub fn lookup(&self, vaddr: usize) -> (r: Option<usize>)
        requires
            self.wf(),
        ensures
            r == self.map.spec_find(vaddr),
            match r {
                Some(i) => i < self.entries@.len() && self.map.holds(i as int, vaddr),
                None => forall|i: int| !self.map.holds(i, vaddr),
            },
    {
        self.map.find(vaddr)
    }
}

/// Which object each virtual address of the process belongs to: the main
/// object, or another.
pub struct ObjMap {
    pub map: RangeMap,
    /// For each range, whether it belongs to the main object.
    pub main: Vec<bool>,
}

impl ObjMap {
    pub open spec fn wf(&self) -> bool {
        self.map.wf() && self.map.ranges().len() == self.main@.len()
    }

    /// Does `vaddr` belong to the main object? `None` if it belongs to no
    /// object.
    pub open spec fn spec_is_main(&self, vaddr: usize) -> Option<bool> {
        match self.map.spec_find(vaddr) {
            Some(i) => Some(self.main@[i as int]),
            None => None,
        }
    }

    /// Build the map of the objects whose ranges of addresses are `ranges`.
    /// `None` if two ranges overlap.
    pub fn new(ranges: &Vec<(usize, usize)>, main: Vec<bool>) -> (r: Option<Self>)
        ensures
            match r {
                Some(o) => o.wf() && o.main == main && o.map.ranges().len() == ranges@.len()
                    && forall|i: int|
                    0 <= i < ranges@.len() ==> #[trigger] o.map.ranges()[i] == (
                        ranges@[i].0,
                        ranges@[i].1,
                        i as usize,
                    ),
                None => true,
            },
            r is Some <==> ranges@.len() == main@.len() && !overlapping(ranges@),
    {
        if ranges.len() != main.len() {
            return None;
        }
        match RangeMap::new(ranges) {
            Some(map) => Some(ObjMap { map, main }),
            None => None,
        }
    }

    /// Does `vaddr` belong to the main object? `None` if it belongs to no
    /// object.
    pub fn is_main(&self, vaddr: usize) -> (r: Option<bool>)
        requires
            self.wf(),
        ensures
            r == self.spec_is_main(vaddr),
    {
        match self.map.find(vaddr) {
            Some(i) => Some(self.main[i]),
            None => None,
        }
    }
}

/// The executable segments of the objects of the process, with their bytes.
pub struct CodeSegs {
    pub map: RangeMap,
    /// For each segment, its bytes.
    pub bytes: Vec<Vec<u8>>,
}

impl CodeSegs {
    /// Every segment has as many bytes as its range has addresses.
    pub open spec fn wf(&self) -> bool {
        &&& self.map.wf()
        &&& self.map.ranges().len() == self.bytes@.len()
        &&& forall|i: int|
            0 <= i < self.bytes@.len() ==> (#[trigger] self.bytes@[i])@.len() == self.map.ranges()[i].1
                - self.map.ranges()[i].0
    }

    /// Build the table of the segments whose ranges of addresses are
    /// `ranges` and whose bytes are `bytes`. `None` if two ranges overlap, or
    /// a segment has not as many bytes as its range has addresses.
    pub fn new(ranges: &Vec<(usize, usize)>, bytes: Vec<Vec<u8>>) -> (r: Option<Self>)
        ensures
            match r {
                Some(s) => {
                    &&& s.wf()
                    &&& s.bytes == bytes
                    &&& s.map.ranges().len() == ranges@.len()
                    &&& forall|i: int|
                        0 <= i < ranges@.len() ==> #[trigger] s.map.ranges()[i] == (
                            ranges@[i].0,
                            ranges@[i].1,
                            i as usize,
                        )
                },
                None => true,
            },
            r is Some <==> {
                &&& ranges@.len() == bytes@.len()
                &&& forall|i: int|
                    0 <= i < ranges@.len() ==> (#[trigger] ranges@[i]).0 <= ranges@[i].1
                        && bytes@[i]@.len() == ranges@[i].1 - ranges@[i].0
                &&& !overlapping(ranges@)
            },
    {
        if ranges.len() != bytes.len() {
            return None;
        }
        let mut i: usize = 0;
        while i < ranges.len()
            invariant
                i <= ranges@.len(),
                ranges@.len() == bytes@.len(),
                forall|k: int|
                    0 <= k < i ==> (#[trigger] bytes@[k])@.len() == ranges@[k].1 - ranges@[k].0,
                forall|k: int|
                    0 <= k < i ==> (#[trigger] ranges@[k]).0 <= ranges@[k].1 && bytes@[k]@.len()
                        == ranges@[k].1 - ranges@[k].0,
            decreases ranges@.len() - i,
        {
            let (s, e) = ranges[i];
            if e < s || bytes[i].len() != e - s {
                proof {
                    let k = i as int;
                    assert(!(ranges@[k].0 <= ranges@[k].1 && bytes@[k]@.len() == ranges@[k].1
                        - ranges@[k].0));
                }
                return None;
            }
            i = i + 1;
        }
        match RangeMap::new(ranges) {
            Some(map) => Some(CodeSegs { map, bytes }),
            None => None,
        }
    }

    /// The segment that holds `vaddr`.
    pub fn seg(&self, vaddr: usize) -> (r: Option<usize>)
        requires
            self.wf(),
        ensures
            r == self.map.spec_find(vaddr),
            match r {
                Some(i) => i < self.bytes@.len() && self.map.holds(i as int, vaddr),
                None => forall|i: int| !self.map.holds(i, vaddr),
            },
    {
        self.map.find(vaddr)
    }
}

} // verus!
