use vstd::prelude::*;
use crate::error::Error;
use crate::value::{copy_value, lemma_model_seq, model_seq, Value, ValueModel};

verus! {

/// The store behind every `Value::BoxCell`: one slot per box, shared by every
/// holder of the cell's index. Cells are created once and then mutated in
/// place; mutation is visible through every alias of the index.
pub struct Heap {
    cells: Vec<Value>,
}

impl View for Heap {
    type V = Seq<ValueModel>;

    closed spec fn view(&self) -> Seq<ValueModel> {
        model_seq(self.cells@)
    }
}

impl Heap {
    /// A heap with no cells.
    pub fn new() -> (heap: Heap)
        ensures
            heap@ == Seq::<ValueModel>::empty(),
    {
        let heap = Heap { cells: Vec::new() };
        proof {
            lemma_model_seq(heap.cells@);
            assert(heap@ =~= Seq::<ValueModel>::empty());
        }
        heap
    }

    /// How many cells exist.
    pub fn len(&self) -> (n: usize)
        ensures
            n == self@.len(),
    {
        proof {
            lemma_model_seq(self.cells@);
        }
        self.cells.len()
    }

    /// Wraps `v` in a fresh mutable cell and returns the box naming it.
    pub fn box_value(&mut self, v: &Value) -> (b: Value)
        ensures
            final(self)@ == old(self)@.push(v@),
            b@ == ValueModel::BoxCell(old(self)@.len() as int),
    {
        proof {
            lemma_model_seq(self.cells@);
        }
        let idx = self.cells.len();
        let c = copy_value(v);
        self.cells.push(c);
        proof {
            lemma_model_seq(self.cells@);
            assert(self@ =~= old(self)@.push(v@));
        }
        Value::BoxCell(idx)
    }

    /// Replaces the content of the cell `b` names and returns the stored
    /// value. A non-box is a type error; a box this heap never made is a
    /// domain error.
    pub fn set_box(&mut self, b: &Value, v: &Value) -> (r: Result<Value, Error>)
        ensures
            match b@ {
                ValueModel::BoxCell(i) => {
                    if 0 <= i < old(self)@.len() {
                        &&& final(self)@ == old(self)@.update(i, v@)
                        &&& r matches Ok(out) && out@ == v@
                    } else {
                        &&& final(self)@ == old(self)@
                        &&& r matches Err(Error::DomainError { .. })
                    }
                },
                _ => {
                    &&& final(self)@ == old(self)@
                    &&& r matches Err(Error::TypeError { .. })
                },
            },
    {
        proof {
            lemma_model_seq(self.cells@);
        }
        match b {
            Value::BoxCell(i) => {
                if *i < self.cells.len() {
                    let c = copy_value(v);
                    self.cells.set(*i, c);
                    proof {
                        lemma_model_seq(self.cells@);
                        assert(self@ =~= old(self)@.update(*i as int, v@));
                    }
                    Ok(copy_value(v))
                } else {
                    Err(crate::error::domain_error("box names no cell of this heap"))
                }
            },
            _ => Err(crate::error::type_error("box", b)),
        }
    }

    /// Reads the current content of the cell `b` names.
    pub fn deref(&self, b: &Value) -> (r: Result<Value, Error>)
        ensures
            match b@ {
                ValueModel::BoxCell(i) => {
                    if 0 <= i < self@.len() {
                        r matches Ok(out) && out@ == self@[i]
                    } else {
                        r matches Err(Error::DomainError { .. })
                    }
                },
                _ => r matches Err(Error::TypeError { .. }),
            },
    {
        proof {
            lemma_model_seq(self.cells@);
        }
        match b {
            Value::BoxCell(i) => {
                if *i < self.cells.len() {
                    Ok(copy_value(&self.cells[*i]))
                } else {
                    Err(crate::error::domain_error("box names no cell of this heap"))
                }
            },
            _ => Err(crate::error::type_error("box", b)),
        }
    }
}

/// Box identity: two boxes naming the same cell alias one another, so writing
/// through one is read through the other — setting cell `i` and then
/// dereferencing any box naming `i` yields exactly the written value, and no
/// other cell changes.
pub proof fn lemma_box_identity(heap: Seq<ValueModel>, i: int, v: ValueModel)
    requires
        0 <= i < heap.len(),
    ensures
        heap.update(i, v)[i] == v,
        forall|j: int| 0 <= j < heap.len() && j != i ==> heap.update(i, v)[j] == heap[j],
{
}

} // verus!
