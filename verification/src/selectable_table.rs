//! The rows of a table in which one row can be selected: which row is the
//! selected one, and how each row is filled.

use vstd::prelude::*;

verus! {

/// How the background of a row is filled.
#[derive(Debug, Copy, Clone, PartialEq, Eq, Structural)]
pub enum RowFill {
    /// The row is the selected one.
    Selected,
    /// The row is one of the faintly filled rows of a striped table.
    Faint,
    /// The row has no fill of its own.
    Plain,
}

/// The fill of the row with the number `row_no`, where `selected_row` is the
/// selected one: the selected row is marked; of the others, in a striped
/// table, every second one is filled faintly, beginning with the first.
pub open spec fn fill_of(row_no: usize, striped: bool, selected_row: Option<usize>) -> RowFill {
    if selected_row == Some(row_no) {
        RowFill::Selected
    } else if striped && row_no % 2 == 0 {
        RowFill::Faint
    } else {
        RowFill::Plain
    }
}

/// Where the body of a table stands while its rows are added.
#[derive(Debug, Copy, Clone)]
pub struct RowCursor {
    striped: bool,
    row_striped: bool,
    row_no: usize,
    selected_row: Option<usize>,
}

/// What a row cursor is in contracts: the number of the next row, whether
/// the table is striped, and the selected row.
pub type RowCursorModel = (usize, bool, Option<usize>);

impl View for RowCursor {
    type V = RowCursorModel;

    closed spec fn view(&self) -> RowCursorModel {
        (self.row_no, self.striped, self.selected_row)
    }
}

impl RowCursor {
    #[verifier::type_invariant]
    spec fn well_formed(self) -> bool {
        self.row_striped == (self.row_no % 2 == 0)
    }

    /// The cursor before the first row.
    pub fn new(striped: bool, selected_row: Option<usize>) -> (cursor: RowCursor)
        ensures
            cursor@ == (0usize, striped, selected_row),
    {
        RowCursor { striped, row_striped: true, row_no: 0, selected_row }
    }

    /// The number of the next row.
    pub fn row_no(&self) -> (row_no: usize)
        ensures
            row_no == self@.0,
    {
        self.row_no
    }

    /// The fill of the next row.
    pub fn fill(&self) -> (fill: RowFill)
        ensures
            fill == fill_of(self@.0, self@.1, self@.2),
    {
        proof {
            use_type_invariant(self);
        }
        if self.selected_row.is_some() && self.selected_row.unwrap() == self.row_no {
            RowFill::Selected
        } else if self.striped && self.row_striped {
            RowFill::Faint
        } else {
            RowFill::Plain
        }
    }

    /// Goes on to the row after the next.
    pub fn advance(&mut self)
        requires
            old(self)@.0 < usize::MAX,
        ensures
            final(self)@ == ((old(self)@.0 + 1) as usize, old(self)@.1, old(self)@.2),
    {
        proof {
            use_type_invariant(&*self);
        }
        let next = RowCursor {
            striped: self.striped,
            row_striped: !self.row_striped,
            row_no: self.row_no + 1,
            selected_row: self.selected_row,
        };
        *self = next;
    }
}

/// The selected row after the body of a table was shown, and whether it is
/// to be stored: a row that was chosen while the body was shown is the
/// selected one from now on, and otherwise the stored one stays; it is stored
/// where it is not the stored one.
pub fn merge_selection(stored: Option<usize>, chosen: Option<usize>) -> (merged: (
    Option<usize>,
    bool,
))
    ensures
        merged.0 == if chosen.is_some() {
            chosen
        } else {
            stored
        },
        merged.1 == (merged.0 != stored),
{
    let selected = match chosen {
        Some(row) => Some(row),
        None => stored,
    };
    let changed = match (selected, stored) {
        (Some(a), Some(b)) => a != b,
        (None, None) => false,
        _ => true,
    };
    (selected, changed)
}

} // verus!
