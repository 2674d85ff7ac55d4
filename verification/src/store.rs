use vstd::prelude::*;

use crate::customer::{CustomerRow, RowView};

verus! {

/// Some row in `rows` carries id `id`.
pub open spec fn has_id(rows: Seq<RowView>, id: u128) -> bool {
    exists|i: int| 0 <= i < rows.len() && #[trigger] rows[i].id == id
}

/// Some row in `rows` carries email `email`.
pub open spec fn has_email(rows: Seq<RowView>, email: Seq<char>) -> bool {
    exists|i: int| 0 <= i < rows.len() && #[trigger] rows[i].email == email
}

/// Some row other than the one with id `id` carries email `email`.
pub open spec fn email_taken_by_other(rows: Seq<RowView>, id: u128, email: Seq<char>) -> bool {
    exists|i: int|
        0 <= i < rows.len() && #[trigger] rows[i].id != id && rows[i].email == email
}

/// The index of the row with id `id`; meaningful only under `has_id`.
pub open spec fn idx_of_id(rows: Seq<RowView>, id: u128) -> int {
    choose|i: int| 0 <= i < rows.len() && #[trigger] rows[i].id == id
}

/// The table invariant: the id column is a primary key, the email column is
/// unique.
pub open spec fn wf_rows(rows: Seq<RowView>) -> bool {
    forall|i: int, j: int|
        0 <= i < j < rows.len() ==> #[trigger] rows[i].id != #[trigger] rows[j].id
            && rows[i].email != rows[j].email
}

/// Under the table invariant, a row's index is determined by its id.
pub proof fn lemma_idx_of_id(rows: Seq<RowView>, id: u128, i: int)
    requires
        wf_rows(rows),
        0 <= i < rows.len(),
        rows[i].id == id,
    ensures
        has_id(rows, id),
        idx_of_id(rows, id) == i,
{
    assert(has_id(rows, id));
    let j = idx_of_id(rows, id);
    assert(0 <= j < rows.len() && rows[j].id == id);
    if i < j {
        assert(rows[i].id != rows[j].id);
    } else if j < i {
        assert(rows[j].id != rows[i].id);
    }
}

/// The store rejected a statement that would duplicate a unique column.
#[derive(Clone, Copy, Debug, PartialEq, Eq, Structural)]
pub struct UniqueViolation;

/// The customers table: rows in insertion order, ids and emails unique.
pub struct Store {
    rows: Vec<CustomerRow>,
}

impl View for Store {
    type V = Seq<RowView>;

    closed spec fn view(&self) -> Seq<RowView> {
        Seq::new(self.rows@.len(), |i: int| self.rows@[i]@)
    }
}

impl Store {
    /// The table invariant, as seen by callers.
    pub open spec fn wf(&self) -> bool {
        wf_rows(self@)
    }

    /// An empty table.
    pub fn new() -> (r: Store)
        ensures
            r@ == Seq::<RowView>::empty(),
            r.wf(),
    {
        let s = Store { rows: Vec::new() };
        proof {
            assert(s@ =~= Seq::<RowView>::empty());
        }
        s
    }

    /// How many rows the table holds.
    pub fn row_count(&self) -> (n: usize)
        ensures
            n == self@.len(),
    {
        self.rows.len()
    }

    fn find_index(&self, id: u128) -> (r: Option<usize>)
        ensures
            match r {
                Some(i) => 0 <= i < self@.len() && self@[i as int].id == id,
                None => !has_id(self@, id),
            },
    {
        let n = self.rows.len();
        let mut i: usize = 0;
        while i < n
            invariant
                n == self.rows.len(),
                i <= n,
                forall|j: int| 0 <= j < i ==> #[trigger] self@[j].id != id,
            decreases n - i,
        {
            if self.rows[i].id == id {
                return Some(i);
            }
            i += 1;
        }
        None
    }

    /// SELECT ... WHERE id = $1: the row with that id, if one exists.
    pub fn select_by_id(&self, id: u128) -> (r: Option<CustomerRow>)
        requires
            self.wf(),
        ensures
            match r {
                Some(row) => has_id(self@, id) && row@ == self@[idx_of_id(self@, id)],
                None => !has_id(self@, id),
            },
    {
        match self.find_index(id) {
            Some(i) => {
                proof {
                    lemma_idx_of_id(self@, id, i as int);
                }
                Some(self.rows[i].duplicate())
            },
            None => None,
        }
    }

    /// SELECT every row, in table order.
    pub fn select_all(&self) -> (r: Vec<CustomerRow>)
        ensures
            r@.len() == self@.len(),
            forall|i: int| 0 <= i < r@.len() ==> #[trigger] r@[i]@ == self@[i],
    {
        let n = self.rows.len();
        let mut out: Vec<CustomerRow> = Vec::new();
        let mut i: usize = 0;
        while i < n
            invariant
                n == self.rows.len(),
                i <= n,
                out@.len() == i,
                forall|j: int| 0 <= j < i ==> #[trigger] out@[j]@ == self@[j],
            decreases n - i,
        {
            out.push(self.rows[i].duplicate());
            i += 1;
        }
        out
    }

    fn email_exists(&self, email: &String) -> (r: bool)
        ensures
            r == has_email(self@, email@),
    {
        let n = self.rows.len();
        let mut i: usize = 0;
        while i < n
            invariant
                n == self.rows.len(),
                i <= n,
                forall|j: int| 0 <= j < i ==> #[trigger] self@[j].email != email@,
            decreases n - i,
        {
            if self.rows[i].email == *email {
                proof {
                    assert(self@[i as int].email == email@);
                }
                return true;
            }
            i += 1;
        }
        false
    }

    fn email_held_by_other(&self, id: u128, email: &String) -> (r: bool)
        ensures
            r == email_taken_by_other(self@, id, email@),
    {
        let n = self.rows.len();
        let mut i: usize = 0;
        while i < n
            invariant
                n == self.rows.len(),
                i <= n,
                forall|j: int|
                    0 <= j < i ==> !(#[trigger] self@[j].id != id && self@[j].email == email@),
            decreases n - i,
        {
            if self.rows[i].id != id && self.rows[i].email == *email {
                proof {
                    assert(self@[i as int].id != id && self@[i as int].email == email@);
                }
                return true;
            }
            i += 1;
        }
        false
    }

    /// INSERT one row; refused when its id or its email is already present.
    pub fn insert_row(&mut self, row: CustomerRow) -> (r: Result<(), UniqueViolation>)
        requires
            old(self).wf(),
        ensures
            final(self).wf(),
            r matches Ok(()) <==> !has_id(old(self)@, row@.id) && !has_email(
                old(self)@,
                row@.email,
            ),
            r matches Ok(()) ==> final(self)@ == old(self)@.push(row@),
            r is Err ==> final(self)@ == old(self)@,
    {
        let id_conflict = match self.find_index(row.id) {
            Some(_) => true,
            None => false,
        };
        if id_conflict || self.email_exists(&row.email) {
            return Err(UniqueViolation);
        }
        proof {
            let rows0 = self@;
            let rows1 = rows0.push(row@);
            assert forall|i: int, j: int| 0 <= i < j < rows1.len() implies #[trigger] rows1[i].id
                != #[trigger] rows1[j].id && rows1[i].email != rows1[j].email by {
                if j < rows0.len() {
                    assert(rows0[i].id != rows0[j].id && rows0[i].email != rows0[j].email);
                } else {
                    assert(rows1[j] == row@);
                    assert(rows1[i] == rows0[i]);
                }
            }
        }
        let ghost rows0 = self@;
        self.rows.push(row);
        proof {
            assert(self@ =~= rows0.push(row@));
        }
        Ok(())
    }

    /// UPDATE ... SET email = $1 WHERE id = $2: the affected-row count (zero
    /// or one), or the store's refusal when the email is another row's.
    pub fn update_email(&mut self, id: u128, email: String) -> (r: Result<u64, UniqueViolation>)
        requires
            old(self).wf(),
        ensures
            final(self).wf(),
            !has_id(old(self)@, id) ==> r == Ok::<u64, UniqueViolation>(0u64) && final(self)@
                == old(self)@,
            has_id(old(self)@, id) && email_taken_by_other(old(self)@, id, email@) ==> r == Err::<
                u64,
                UniqueViolation,
            >(UniqueViolation) && final(self)@ == old(self)@,
            has_id(old(self)@, id) && !email_taken_by_other(old(self)@, id, email@) ==> r == Ok::<
                u64,
                UniqueViolation,
            >(1u64) && final(self)@ == old(self)@.update(
                idx_of_id(old(self)@, id),
                (RowView { email: email@, ..old(self)@[idx_of_id(old(self)@, id)] }),
            ),
    {
        let i = match self.find_index(id) {
            None => {
                return Ok(0);
            },
            Some(i) => i,
        };
        proof {
            lemma_idx_of_id(self@, id, i as int);
        }
        if self.email_held_by_other(id, &email) {
            return Err(UniqueViolation);
        }
        let ghost rows0 = self@;
        let old_row = self.rows[i].duplicate();
        let new_row = CustomerRow {
            id: old_row.id,
            name: old_row.name,
            age: old_row.age,
            email,
            address: old_row.address,
        };
        let ghost new_view = new_row@;
        self.rows.set(i, new_row);
        proof {
            assert(self@ =~= rows0.update(i as int, new_view));
            let rows1 = self@;
            assert(rows1[i as int].id == id);
            assert forall|p: int, q: int| 0 <= p < q < rows1.len() implies #[trigger] rows1[p].id
                != #[trigger] rows1[q].id && rows1[p].email != rows1[q].email by {
                assert(rows0[p].id != rows0[q].id && rows0[p].email != rows0[q].email);
                if p == i as int {
                    assert(rows1[q] == rows0[q]);
                    assert(!(rows0[q].id != id && rows0[q].email == email@));
                } else if q == i as int {
                    assert(rows1[p] == rows0[p]);
                    assert(!(rows0[p].id != id && rows0[p].email == email@));
                }
            }
        }
        Ok(1)
    }

    /// DELETE ... WHERE id = $1: the affected-row count (zero or one).
    pub fn delete_by_id(&mut self, id: u128) -> (n: u64)
        requires
            old(self).wf(),
        ensures
            final(self).wf(),
            !has_id(old(self)@, id) ==> n == 0 && final(self)@ == old(self)@,
            has_id(old(self)@, id) ==> n == 1 && final(self)@ == old(self)@.remove(
                idx_of_id(old(self)@, id),
            ),
    {
        let i = match self.find_index(id) {
            None => {
                return 0;
            },
            Some(i) => i,
        };
        proof {
            lemma_idx_of_id(self@, id, i as int);
        }
        let ghost rows0 = self@;
        let _ = self.rows.remove(i);
        proof {
            assert(self@ =~= rows0.remove(i as int));
            lemma_wf_remove(rows0, i as int);
        }
        1
    }

    /// DELETE every row; the count of rows that were present.
    pub fn clear_all(&mut self) -> (n: usize)
        requires
            old(self).wf(),
        ensures
            final(self).wf(),
            n == old(self)@.len(),
            final(self)@ == Seq::<RowView>::empty(),
    {
        let n = self.rows.len();
        self.rows.clear();
        proof {
            assert(self@ =~= Seq::<RowView>::empty());
        }
        n
    }
}

/// Removing a row preserves the table invariant.
pub proof fn lemma_wf_remove(rows: Seq<RowView>, k: int)
    requires
        wf_rows(rows),
        0 <= k < rows.len(),
    ensures
        wf_rows(rows.remove(k)),
{
    let rows1 = rows.remove(k);
    assert forall|i: int, j: int| 0 <= i < j < rows1.len() implies #[trigger] rows1[i].id
        != #[trigger] rows1[j].id && rows1[i].email != rows1[j].email by {
        let i0 = if i < k { i } else { i + 1 };
        let j0 = if j < k { j } else { j + 1 };
        assert(rows1[i] == rows[i0]);
        assert(rows1[j] == rows[j0]);
        assert(rows[i0].id != rows[j0].id && rows[i0].email != rows[j0].email);
    }
}

/// After a delete, no row carries the deleted id.
pub proof fn lemma_remove_id(rows: Seq<RowView>, id: u128)
    requires
        wf_rows(rows),
        has_id(rows, id),
    ensures
        !has_id(rows.remove(idx_of_id(rows, id)), id),
{
    let k = idx_of_id(rows, id);
    assert(0 <= k < rows.len() && rows[k].id == id);
    let rows1 = rows.remove(k);
    assert forall|i: int| 0 <= i < rows1.len() implies #[trigger] rows1[i].id != id by {
        let i0 = if i < k { i } else { i + 1 };
        assert(rows1[i] == rows[i0]);
        if i0 != k {
            lemma_idx_of_id(rows, id, k);
            if rows[i0].id == id {
                lemma_idx_of_id(rows, id, i0);
            }
        }
    }
}

} // verus!
