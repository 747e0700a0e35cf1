//! The name-indexed lookup of cells that stands between serialization and
//! binding by name.
use vstd::prelude::*;
use crate::cell::{cell_views, named_cell_views, Cell, CellView, NamedCell, NamedCellView};
use crate::error::{Error, ErrorView};
use crate::gather::{gather, lemma_gather_ok, lemma_gather_step};
use crate::names::name_views;

verus! {

/// The lookup that a sequence of named cells stands for: each name with
/// the cell of the last entry of that name. Cells without a name take no
/// part.
pub open spec fn lookup(cells: Seq<NamedCellView>) -> Map<Seq<char>, CellView>
    decreases cells.len(),
{
    if cells.len() == 0 {
        Map::empty()
    } else {
        match cells.last().name {
            Some(name) => lookup(cells.drop_last()).insert(name, cells.last().cell),
            None => lookup(cells.drop_last()),
        }
    }
}

/// The cell that a lookup binds to a parameter name.
pub open spec fn bound_cell(table: Map<Seq<char>, CellView>, name: Seq<char>) -> Result<
    CellView,
    ErrorView,
> {
    if table.contains_key(name) {
        Ok(table[name])
    } else {
        Err(ErrorView::MissingColumn(name))
    }
}

/// The cell that a lookup binds to each name of a list.
pub open spec fn bound_cells(table: Map<Seq<char>, CellView>, columns: Seq<Seq<char>>) -> Seq<
    Result<CellView, ErrorView>,
> {
    Seq::new(columns.len(), |i: int| bound_cell(table, columns[i]))
}

/// The cells of a lookup in the order of a list of names; the first name
/// that the lookup does not hold makes it fail.
pub open spec fn in_order(table: Map<Seq<char>, CellView>, columns: Seq<Seq<char>>) -> Result<
    Seq<CellView>,
    ErrorView,
> {
    gather(bound_cells(table, columns))
}

/// Tells whether every cell of the sequence has a name.
pub open spec fn all_named(cells: Seq<NamedCellView>) -> bool {
    forall|i: int| 0 <= i < cells.len() ==> (#[trigger] cells[i]).name is Some
}

/// The lookup holds a name under the cell of the last entry of that name.
pub proof fn lemma_lookup_found(cells: Seq<NamedCellView>, at: int, name: Seq<char>)
    requires
        0 <= at < cells.len(),
        cells[at].name == Some(name),
        forall|k: int| at < k < cells.len() ==> cells[k].name != Some(name),
    ensures
        lookup(cells).contains_key(name),
        lookup(cells)[name] == cells[at].cell,
    decreases cells.len(),
{
    if at < cells.len() - 1 {
        let front = cells.drop_last();
        assert(forall|k: int| 0 <= k < front.len() ==> front[k] == cells[k]);
        lemma_lookup_found(front, at, name);
    }
}

/// The lookup holds no name that no entry has.
pub proof fn lemma_lookup_absent(cells: Seq<NamedCellView>, name: Seq<char>)
    requires
        forall|k: int| 0 <= k < cells.len() ==> cells[k].name != Some(name),
    ensures
        !lookup(cells).contains_key(name),
    decreases cells.len(),
{
    if cells.len() > 0 {
        let front = cells.drop_last();
        assert(forall|k: int| 0 <= k < front.len() ==> front[k] == cells[k]);
        lemma_lookup_absent(front, name);
    }
}

/// Tells whether no two cells of the sequence have the same name.
pub open spec fn distinct_cell_names(cells: Seq<NamedCellView>) -> bool {
    forall|i: int, j: int|
        0 <= i < cells.len() && 0 <= j < cells.len() && i != j ==> (#[trigger] cells[i]).name
            != (#[trigger] cells[j]).name
}

/// Where every cell has a name and no two have the same, the lookup holds
/// every cell under its name.
pub proof fn lemma_lookup_distinct(cells: Seq<NamedCellView>)
    requires
        all_named(cells),
        distinct_cell_names(cells),
    ensures
        forall|i: int|
            0 <= i < cells.len() ==> lookup(cells).contains_key((#[trigger] cells[i]).name->Some_0)
                && lookup(cells)[cells[i].name->Some_0] == cells[i].cell,
{
    assert forall|i: int| 0 <= i < cells.len() implies lookup(cells).contains_key(
        (#[trigger] cells[i]).name->Some_0,
    ) && lookup(cells)[cells[i].name->Some_0] == cells[i].cell by {
        assert(cells[i].name is Some);
        lemma_lookup_found(cells, i, cells[i].name->Some_0);
    }
}

/// Where the lookup holds every name of the list, putting it in the order
/// of the list succeeds and gives the cell of each name at its position.
pub proof fn lemma_in_order(table: Map<Seq<char>, CellView>, columns: Seq<Seq<char>>)
    requires
        forall|j: int| 0 <= j < columns.len() ==> table.contains_key(#[trigger] columns[j]),
    ensures
        in_order(table, columns) is Ok,
        in_order(table, columns)->Ok_0.len() == columns.len(),
        forall|j: int|
            0 <= j < columns.len() ==> #[trigger] in_order(table, columns)->Ok_0[j]
                == table[columns[j]],
{
    let bound = bound_cells(table, columns);
    assert forall|j: int| 0 <= j < bound.len() implies (#[trigger] bound[j]) is Ok by {
        assert(table.contains_key(columns[j]));
    }
    lemma_gather_ok(bound);
    let row = gather(bound)->Ok_0;
    assert forall|j: int| 0 <= j < columns.len() implies #[trigger] row[j] == table[columns[j]] by {
        assert(bound[j] == Ok::<CellView, ErrorView>(row[j]));
    }
}

/// Cells collected under their names, ready to be bound to the named
/// parameters of a statement in whatever order the statement declares.
#[derive(Debug)]
pub struct NamedParams {
    cells: Vec<NamedCell>,
}

impl View for NamedParams {
    type V = Map<Seq<char>, CellView>;

    open spec fn view(&self) -> Map<Seq<char>, CellView> {
        lookup(self.entries())
    }
}

impl NamedParams {
    /// The entries in the order in which they were collected.
    pub closed spec fn entries(&self) -> Seq<NamedCellView> {
        named_cell_views(self.cells@)
    }

    #[verifier::type_invariant]
    spec fn inv(&self) -> bool {
        all_named(named_cell_views(self.cells@))
    }

    /// Collects cells under their names. Cells of which one has no name
    /// cannot be bound by name.
    pub fn from_cells(cells: Vec<NamedCell>) -> (r: Result<NamedParams, Error>)
        ensures
            match r {
                Ok(table) => all_named(named_cell_views(cells@)) && table.entries()
                    == named_cell_views(cells@),
                Err(e) => !all_named(named_cell_views(cells@)) && e@
                    == ErrorView::UnsupportedStructure,
            },
    {
        let mut i: usize = 0;
        while i < cells.len()
            invariant
                i <= cells.len(),
                forall|k: int| 0 <= k < i ==> (#[trigger] named_cell_views(cells@)[k]).name is Some,
            decreases cells.len() - i,
        {
            if cells[i].name.is_none() {
                assert(named_cell_views(cells@)[i as int].name is None);
                return Err(Error::UnsupportedStructure);
            }
            i += 1;
        }
        Ok(NamedParams { cells })
    }

    /// The entries in the order in which they were collected.
    pub fn cells(&self) -> (r: &Vec<NamedCell>)
        ensures
            named_cell_views(r@) == self.entries(),
            all_named(named_cell_views(r@)),
    {
        proof {
            use_type_invariant(self);
        }
        &self.cells
    }

    /// Looks a name up.
    pub fn get(&self, name: &String) -> (r: Option<&Cell>)
        ensures
            match r {
                Some(cell) => self@.contains_key(name@) && self@[name@] == cell@,
                None => !self@.contains_key(name@),
            },
    {
        let ghost entries = named_cell_views(self.cells@);
        let mut i: usize = self.cells.len();
        while i > 0
            invariant
                i <= self.cells.len(),
                entries == named_cell_views(self.cells@),
                forall|k: int| i <= k < entries.len() ==> entries[k].name != Some(name@),
            decreases i,
        {
            i -= 1;
            match &self.cells[i].name {
                Some(n) => {
                    if *n == *name {
                        proof {
                            lemma_lookup_found(entries, i as int, name@);
                        }
                        return Some(&self.cells[i].cell);
                    }
                },
                None => {},
            }
        }
        proof {
            lemma_lookup_absent(entries, name@);
        }
        None
    }

    /// Puts the cells into the order in which a statement declares its
    /// parameter names. A declared name that the lookup does not hold is
    /// reported as missing.
    pub fn in_column_order(&self, columns: &Vec<String>) -> (r: Result<Vec<Cell>, Error>)
        ensures
            match r {
                Ok(cells) => in_order(self@, name_views(*columns)) == Ok::<
                    Seq<CellView>,
                    ErrorView,
                >(cell_views(cells@)),
                Err(e) => in_order(self@, name_views(*columns)) == Err::<
                    Seq<CellView>,
                    ErrorView,
                >(e@),
            },
    {
        let ghost slots = bound_cells(self@, name_views(*columns));
        let mut out: Vec<Cell> = Vec::new();
        let mut i: usize = 0;
        assert(slots.take(0) =~= Seq::empty());
        assert(cell_views(out@) =~= Seq::empty());
        while i < columns.len()
            invariant
                i <= columns.len(),
                slots == bound_cells(self@, name_views(*columns)),
                gather(slots.take(i as int)) == Ok::<Seq<CellView>, ErrorView>(cell_views(out@)),
            decreases columns.len() - i,
        {
            proof {
                lemma_gather_step(slots, i as int);
                assert(slots[i as int] == bound_cell(self@, columns@[i as int]@));
            }
            match self.get(&columns[i]) {
                Some(cell) => {
                    let ghost before = cell_views(out@);
                    let copy = cell.duplicate();
                    out.push(copy);
                    assert(cell_views(out@) =~= before.push(copy@));
                },
                None => {
                    return Err(Error::MissingColumn(columns[i].clone()));
                },
            }
            i += 1;
        }
        assert(slots.take(i as int) == slots);
        Ok(out)
    }
}

} // verus!
