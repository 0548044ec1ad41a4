//! Spreadsheets: cells keyed by position inside the sheet.

use vstd::prelude::*;

use crate::assoc::{map_of, unique_keys, lemma_map_of_dom, lemma_map_of_index, lemma_map_of_push,
    lemma_map_of_update};
use crate::cloning::{copy_strings, strings_view, Dup};
use crate::objects::Payload;
use crate::types::{CellTag, IndexInEntity};

verus! {

/// How a cell's value is computed from its text and tags.
#[derive(Copy, Clone, Debug, PartialEq, Eq, Structural)]
pub enum CellFormula {
    Literal,
    TagSum,
    TagMean,
    TagMode,
    TagCount,
    TagRange,
    TagMedian,
    TagMinimum,
    TagMaximum,
    TagProduct,
    CellsSum,
    CellsRatio,
    CellsProduct,
    CellsRemainder,
    CellsDifference,
    CellSqrt,
}

/// One spreadsheet cell.
#[derive(Debug)]
pub struct Cell {
    pub text: String,
    pub formula: CellFormula,
    pub tags: Vec<CellTag>,
}

/// Mathematical image of a cell.
#[verifier::ext_equal]
pub ghost struct CellView {
    pub text: Seq<char>,
    pub formula: CellFormula,
    pub tags: Seq<Seq<char>>,
}

impl View for Cell {
    type V = CellView;

    open spec fn view(&self) -> CellView {
        CellView { text: self.text@, formula: self.formula, tags: strings_view(self.tags@) }
    }
}

impl Dup for Cell {
    fn duplicate(&self) -> (r: Self)
        ensures
            r@ == self@,
    {
        Cell { text: self.text.clone(), formula: self.formula, tags: copy_strings(&self.tags) }
    }
}

/// The ghost pairs described by a stored cell list.
pub open spec fn cell_pairs(s: Seq<(IndexInEntity, Cell)>) -> Seq<(IndexInEntity, CellView)> {
    s.map_values(|p: (IndexInEntity, Cell)| (p.0, p.1@))
}

/// The cells of one sheet, keyed by position, each position at most once.
#[derive(Debug)]
pub struct CellMap {
    entries: Vec<(IndexInEntity, Cell)>,
}

impl CellMap {
    #[verifier::type_invariant]
    spec fn wf(self) -> bool {
        unique_keys(cell_pairs(self.entries@))
    }

    /// An empty cell map.
    pub fn new() -> (r: Self)
        ensures
            r@ == Map::<IndexInEntity, CellView>::empty(),
    {
        let r = CellMap { entries: Vec::new() };
        proof {
            assert(cell_pairs(r.entries@) =~= Seq::<(IndexInEntity, CellView)>::empty());
        }
        r
    }

    /// The cell at one position, if any is set.
    #[verifier::loop_isolation(false)]
    pub fn get(&self, k: IndexInEntity) -> (r: Option<&Cell>)
        ensures
            match r {
                Some(c) => self@.dom().contains(k) && c@ == self@[k],
                None => !self@.dom().contains(k),
            },
    {
        proof {
            use_type_invariant(&*self);
            lemma_map_of_dom(cell_pairs(self.entries@));
        }
        let n = self.entries.len();
        let mut i: usize = 0;
        while i < n
            invariant
                i <= n,
                n == self.entries@.len(),
                forall|j: int| 0 <= j < i ==> (#[trigger] self.entries@[j]).0 != k,
            decreases n - i,
        {
            if self.entries[i].0 == k {
                proof {
                    assert(cell_pairs(self.entries@)[i as int].0 == k);
                    lemma_map_of_index(cell_pairs(self.entries@), i as int);
                }
                return Some(&self.entries[i].1);
            }
            i += 1;
        }
        proof {
            assert forall|j: int| 0 <= j < cell_pairs(self.entries@).len() implies (
            #[trigger] cell_pairs(self.entries@)[j]).0 != k by {
                assert(self.entries@[j].0 != k);
            }
        }
        None
    }

    /// Sets the cell at one position, adding it if none is there.
    #[verifier::loop_isolation(false)]
    pub fn set(&mut self, k: IndexInEntity, v: Cell)
        ensures
            final(self)@ == old(self)@.insert(k, v@),
    {
        proof {
            use_type_invariant(&*self);
        }
        let ghost vv = v@;
        let mut entries: Vec<(IndexInEntity, Cell)> = Vec::new();
        core::mem::swap(&mut entries, &mut self.entries);
        proof {
            assert(cell_pairs(Seq::<(IndexInEntity, Cell)>::empty()) =~= Seq::<(
                IndexInEntity,
                CellView,
            )>::empty());
        }
        let ghost oldpairs = cell_pairs(entries@);
        let n = entries.len();
        let mut i: usize = 0;
        while i < n
            invariant
                i <= n,
                n == entries@.len(),
                oldpairs == cell_pairs(entries@),
                forall|j: int| 0 <= j < i ==> (#[trigger] entries@[j]).0 != k,
            decreases n - i,
        {
            if entries[i].0 == k {
                proof {
                    assert(oldpairs[i as int].0 == k);
                    lemma_map_of_update(oldpairs, i as int, k, vv);
                }
                entries[i] = (k, v);
                proof {
                    assert(cell_pairs(entries@) =~= oldpairs.update(i as int, (k, vv)));
                }
                core::mem::swap(&mut entries, &mut self.entries);
                return;
            }
            i += 1;
        }
        proof {
            assert forall|j: int| 0 <= j < oldpairs.len() implies (#[trigger] oldpairs[j]).0 != k by {
                assert(entries@[j].0 != k);
            }
            lemma_map_of_push(oldpairs, k, vv);
        }
        entries.push((k, v));
        proof {
            assert(cell_pairs(entries@) =~= oldpairs.push((k, vv)));
        }
        core::mem::swap(&mut entries, &mut self.entries);
    }

    /// All cells as position/cell pairs, each position exactly once.
    #[verifier::loop_isolation(false)]
    pub fn to_pairs(&self) -> (r: Vec<(IndexInEntity, Cell)>)
        ensures
            unique_keys(cell_pairs(r@)),
            map_of(cell_pairs(r@)) == self@,
    {
        proof {
            use_type_invariant(&*self);
        }
        let mut r: Vec<(IndexInEntity, Cell)> = Vec::new();
        let n = self.entries.len();
        let mut i: usize = 0;
        while i < n
            invariant
                i <= n,
                n == self.entries@.len(),
                r@.len() == i,
                forall|j: int|
                    0 <= j < i ==> (#[trigger] r@[j]).0 == self.entries@[j].0 && r@[j].1@
                        == self.entries@[j].1@,
            decreases n - i,
        {
            let pair = (self.entries[i].0, self.entries[i].1.duplicate());
            r.push(pair);
            i += 1;
        }
        proof {
            assert(cell_pairs(r@) =~= cell_pairs(self.entries@));
        }
        r
    }

    /// Copies the map; the copy reads the same.
    pub fn duplicate(&self) -> (r: Self)
        ensures
            r@ == self@,
    {
        proof {
            use_type_invariant(&*self);
        }
        let entries = self.to_pairs();
        let r = CellMap { entries };
        r
    }
}

impl View for CellMap {
    type V = Map<IndexInEntity, CellView>;

    closed spec fn view(&self) -> Map<IndexInEntity, CellView> {
        map_of(cell_pairs(self.entries@))
    }
}

/// A spreadsheet: its cell map.
#[derive(Debug)]
pub struct Sheet {
    pub cells: CellMap,
}

impl View for Sheet {
    type V = Map<IndexInEntity, CellView>;

    open spec fn view(&self) -> Map<IndexInEntity, CellView> {
        self.cells@
    }
}

impl Dup for Sheet {
    fn duplicate(&self) -> (r: Self)
        ensures
            r@ == self@,
    {
        Sheet { cells: self.cells.duplicate() }
    }
}

impl Payload for Sheet {
    open spec fn default_view() -> Map<IndexInEntity, CellView> {
        Map::empty()
    }

    fn fresh() -> (r: Self)
        ensures
            r@ == Self::default_view(),
    {
        Sheet { cells: CellMap::new() }
    }
}

} // verus!
