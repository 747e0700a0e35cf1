//! Reading the rows of a cursor one after the other.
use vstd::prelude::*;
use crate::cell::{cell_views, Cell, CellView};
use crate::de::{decode_row, from_row};
use crate::error::{Error, ErrorView};
use crate::names::name_views;
use crate::shape::{Shape, ShapeView};
use crate::value::{Value, ValueView};

verus! {

/// The contents of the rows of a sequence, in order.
pub open spec fn row_views(rows: Seq<Vec<Cell>>) -> Seq<Seq<CellView>> {
    Seq::new(rows.len(), |i: int| cell_views(rows[i]@))
}

/// Tells whether every row holds one cell for each of `width` columns.
pub open spec fn aligned(rows: Seq<Vec<Cell>>, width: nat) -> bool {
    forall|i: int| 0 <= i < rows.len() ==> (#[trigger] rows[i])@.len() == width
}

/// A forward-only sequence of the values that the rows of a cursor stand
/// for. Each value is rebuilt when it is asked for. A row that cannot be
/// read yields its failure as that row's element and the sequence goes on
/// with the next row.
#[derive(Debug)]
pub struct DeserializedRows<'a> {
    shape: &'a Shape,
    columns: &'a Vec<String>,
    rows: Vec<Vec<Cell>>,
    position: usize,
}

impl<'a> DeserializedRows<'a> {
    #[verifier::type_invariant]
    spec fn inv(&self) -> bool {
        &&& self.position <= self.rows@.len()
        &&& aligned(self.rows@, self.columns@.len())
    }

    /// The shape that every row is read as.
    pub closed spec fn shape(&self) -> ShapeView {
        self.shape@
    }

    /// The column names that the statement declares.
    pub closed spec fn columns(&self) -> Seq<Seq<char>> {
        name_views(*self.columns)
    }

    /// The rows that have not been read yet, in order.
    pub closed spec fn remaining(&self) -> Seq<Seq<CellView>> {
        row_views(self.rows@).skip(self.position as int)
    }

    /// Reads the next row, if there is one.
    ///
    /// While rows remain the result is the value or the failure that the
    /// first remaining row stands for, and that row is consumed. After the
    /// last row the result is `None`, as often as it is asked.
    pub fn next(&mut self) -> (r: Option<Result<Value, Error>>)
        ensures
            final(self).shape() == old(self).shape(),
            final(self).columns() == old(self).columns(),
            old(self).remaining().len() == 0 ==> r is None && final(self).remaining() == old(
                self,
            ).remaining(),
            old(self).remaining().len() > 0 ==> final(self).remaining() == old(
                self,
            ).remaining().skip(1) && match r {
                Some(Ok(value)) => decode_row(
                    old(self).shape(),
                    old(self).columns(),
                    old(self).remaining()[0],
                ) == Ok::<ValueView, ErrorView>(value@),
                Some(Err(e)) => decode_row(
                    old(self).shape(),
                    old(self).columns(),
                    old(self).remaining()[0],
                ) == Err::<ValueView, ErrorView>(e@),
                None => false,
            },
    {
        proof {
            use_type_invariant(&*self);
        }
        if self.position >= self.rows.len() {
            return None;
        }
        let result = from_row(self.shape, self.columns, &self.rows[self.position]);
        assert(old(self).remaining()[0] == cell_views(self.rows@[self.position as int]@));
        self.position = self.position + 1;
        assert(self.remaining() =~= old(self).remaining().skip(1));
        Some(result)
    }
}

/// Makes the sequence of the values that the rows of a cursor stand for,
/// where `columns` are the names that the statement declares and each row
/// holds their cells in the same order.
pub fn from_rows<'a>(shape: &'a Shape, columns: &'a Vec<String>, rows: Vec<Vec<Cell>>) -> (r:
    DeserializedRows<'a>)
    requires
        aligned(rows@, columns@.len()),
    ensures
        r.shape() == shape@,
        r.columns() == name_views(*columns),
        r.remaining() == row_views(rows@),
{
    let r = DeserializedRows { shape, columns, rows, position: 0 };
    assert(r.remaining() =~= row_views(rows@));
    r
}

} // verus!
