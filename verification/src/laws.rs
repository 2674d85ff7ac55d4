use vstd::prelude::*;

use crate::customer::{ApiError, CustomerView, RowView};
use crate::ids::{uuid_of_str, uuid_str_of};
use crate::resolvers::{
    spec_customer, spec_delete, spec_destroy, spec_register, spec_update_email,
};
use crate::store::{
    email_taken_by_other, has_email, has_id, idx_of_id, lemma_idx_of_id, lemma_remove_id,
    lemma_wf_remove, wf_rows,
};
use crate::text::lower_of;

verus! {

/// A successful create leaves the table well formed, appends one row whose
/// id was not previously present, hands back that row with the email
/// lowercased, and a point lookup by the returned id string answers with the
/// identical customer.
///
/// The two premises on `cid` are what `register_customer` ensures of the
/// returned customer's id string.
pub proof fn lemma_register_then_get(
    rows: Seq<RowView>,
    g: u128,
    name: Seq<char>,
    age: i32,
    email: Seq<char>,
    address: Seq<char>,
    cid: Seq<char>,
)
    requires
        wf_rows(rows),
        spec_register(rows, g, name, age, email, address).0 is Ok,
        cid == uuid_str_of(g),
        uuid_of_str(cid) == Some(g),
    ensures
        !has_id(rows, g),
        wf_rows(spec_register(rows, g, name, age, email, address).1),
        spec_register(rows, g, name, age, email, address).1 == rows.push(
            RowView { id: g, name, age, email: lower_of(email), address },
        ),
        spec_register(rows, g, name, age, email, address).0->Ok_0.email == lower_of(email),
        spec_customer(spec_register(rows, g, name, age, email, address).1, cid) == Ok::<
            CustomerView,
            ApiError,
        >(spec_register(rows, g, name, age, email, address).0->Ok_0),
{
    let row = RowView { id: g, name, age, email: lower_of(email), address };
    let rows2 = rows.push(row);
    assert(!has_id(rows, g) && !has_email(rows, lower_of(email)));
    assert forall|i: int, j: int| 0 <= i < j < rows2.len() implies #[trigger] rows2[i].id
        != #[trigger] rows2[j].id && rows2[i].email != rows2[j].email by {
        if j < rows.len() {
            assert(rows[i].id != rows[j].id && rows[i].email != rows[j].email);
        } else {
            assert(rows2[j] == row);
            assert(rows2[i] == rows[i]);
        }
    }
    assert(wf_rows(rows2));
    assert(spec_register(rows, g, name, age, email, address).1 == rows2);
    assert(rows2[rows.len() as int].id == g);
    lemma_idx_of_id(rows2, g, rows.len() as int);
}

/// Creating a second customer whose email differs from a stored one only in
/// letter case (more generally: agrees with it after lowercasing) fails with
/// `ConstraintViolation` and leaves the table as it was, whatever identifier
/// the second draw gave.
pub proof fn lemma_duplicate_email_rejected(
    rows: Seq<RowView>,
    g1: u128,
    name1: Seq<char>,
    age1: i32,
    email1: Seq<char>,
    address1: Seq<char>,
    g2: u128,
    name2: Seq<char>,
    age2: i32,
    email2: Seq<char>,
    address2: Seq<char>,
)
    requires
        wf_rows(rows),
        lower_of(email2) == lower_of(email1),
        spec_register(rows, g1, name1, age1, email1, address1).0 is Ok,
    ensures
        spec_register(
            spec_register(rows, g1, name1, age1, email1, address1).1,
            g2,
            name2,
            age2,
            email2,
            address2,
        ) == (
            Err::<CustomerView, ApiError>(ApiError::ConstraintViolation),
            spec_register(rows, g1, name1, age1, email1, address1).1,
        ),
{
    let rows2 = spec_register(rows, g1, name1, age1, email1, address1).1;
    assert(rows2[rows.len() as int].email == lower_of(email2));
    assert(has_email(rows2, lower_of(email2)));
}

/// updateEmail on a well-formed identifier that names no stored customer
/// fails with the business "does not exist" error, not `InvalidArgument`,
/// and changes nothing.
pub proof fn lemma_update_missing_id(
    rows: Seq<RowView>,
    id: Seq<char>,
    email: Seq<char>,
    u: u128,
)
    requires
        uuid_of_str(id) == Some(u),
        !has_id(rows, u),
    ensures
        spec_update_email(rows, id, email) == (
            Err::<CustomerView, ApiError>(ApiError::NotFound),
            rows,
        ),
{
}

/// delete on a well-formed identifier that names no stored customer fails
/// with the business "does not exist" error and changes nothing.
pub proof fn lemma_delete_missing_id(rows: Seq<RowView>, id: Seq<char>, u: u128)
    requires
        uuid_of_str(id) == Some(u),
        !has_id(rows, u),
    ensures
        spec_delete(rows, id) == (Err::<bool, ApiError>(ApiError::NotFound), rows),
{
}

/// After a delete answers true, the table is well formed and a lookup for
/// the same identifier fails with the "does not exist" error.
pub proof fn lemma_delete_then_get(rows: Seq<RowView>, id: Seq<char>)
    requires
        wf_rows(rows),
        spec_delete(rows, id).0 == Ok::<bool, ApiError>(true),
    ensures
        wf_rows(spec_delete(rows, id).1),
        spec_delete(rows, id).1.len() == rows.len() - 1,
        spec_customer(spec_delete(rows, id).1, id) == Err::<CustomerView, ApiError>(
            ApiError::NotFound,
        ),
{
    let u = uuid_of_str(id)->0;
    lemma_wf_remove(rows, idx_of_id(rows, u));
    lemma_remove_id(rows, u);
}

/// destroyAll answers the number of rows that were stored — zero on an
/// empty table — and leaves the table empty.
pub proof fn lemma_destroy_counts_and_empties(rows: Seq<RowView>)
    requires
        rows.len() <= i32::MAX,
    ensures
        spec_destroy(rows).0 == Ok::<i32, ApiError>(rows.len() as i32),
        spec_destroy(rows).1 == Seq::<RowView>::empty(),
        rows.len() == 0 ==> spec_destroy(rows).0 == Ok::<i32, ApiError>(0i32),
{
}

/// A malformed identifier string is refused with `InvalidArgument` by get,
/// updateEmail and delete alike, whatever the table holds: the answer does
/// not depend on the table and the table is left as it was.
pub proof fn lemma_malformed_id_rejected(rows: Seq<RowView>, id: Seq<char>, email: Seq<char>)
    requires
        uuid_of_str(id) is None,
    ensures
        spec_customer(rows, id) == Err::<CustomerView, ApiError>(ApiError::InvalidArgument),
        spec_update_email(rows, id, email) == (
            Err::<CustomerView, ApiError>(ApiError::InvalidArgument),
            rows,
        ),
        spec_delete(rows, id) == (Err::<bool, ApiError>(ApiError::InvalidArgument), rows),
{
}

/// After a successful updateEmail, the table is well formed, the returned
/// customer carries the lowercased new email, and a lookup for the same
/// identifier answers with that identical customer.
pub proof fn lemma_update_then_get(rows: Seq<RowView>, id: Seq<char>, email: Seq<char>)
    requires
        wf_rows(rows),
        spec_update_email(rows, id, email).0 is Ok,
    ensures
        wf_rows(spec_update_email(rows, id, email).1),
        spec_update_email(rows, id, email).0->Ok_0.email == lower_of(email),
        spec_customer(spec_update_email(rows, id, email).1, id) == Ok::<CustomerView, ApiError>(
            spec_update_email(rows, id, email).0->Ok_0,
        ),
{
    let u = uuid_of_str(id)->0;
    let k = idx_of_id(rows, u);
    let row2 = RowView { email: lower_of(email), ..rows[k] };
    let rows2 = rows.update(k, row2);
    assert(0 <= k < rows.len() && rows[k].id == u);
    assert(!email_taken_by_other(rows, u, lower_of(email)));
    assert forall|p: int, q: int| 0 <= p < q < rows2.len() implies #[trigger] rows2[p].id
        != #[trigger] rows2[q].id && rows2[p].email != rows2[q].email by {
        assert(rows[p].id != rows[q].id && rows[p].email != rows[q].email);
        if p == k {
            assert(rows2[q] == rows[q]);
            assert(!(rows[q].id != u && rows[q].email == lower_of(email)));
        } else if q == k {
            assert(rows2[p] == rows[p]);
            assert(!(rows[p].id != u && rows[p].email == lower_of(email)));
        }
    }
    assert(rows2[k].id == u);
    lemma_idx_of_id(rows2, u, k);
}

} // verus!
