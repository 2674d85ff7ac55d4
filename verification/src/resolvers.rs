use vstd::prelude::*;

use crate::customer::{ApiError, Customer, CustomerRow, CustomerView, RowView};
use crate::ids::{new_id, parse_uuid, uuid_of_str, uuid_str_of, uuid_to_string};
use crate::store::{email_taken_by_other, has_email, has_id, idx_of_id, lemma_idx_of_id, Store};
use crate::text::{lower_of, lowercase};

verus! {

/// The customer a caller sees for a row, under a given id string.
pub open spec fn customer_of(row: RowView, id_str: Seq<char>) -> CustomerView {
    CustomerView {
        id: id_str,
        name: row.name,
        age: row.age,
        email: row.email,
        address: row.address,
    }
}

/// The view of a resolver's customer-or-error result.
pub open spec fn customer_res_view(r: Result<Customer, ApiError>) -> Result<
    CustomerView,
    ApiError,
> {
    match r {
        Ok(c) => Ok(c@),
        Err(e) => Err(e),
    }
}

/// What get(id) answers over a table state.
pub open spec fn spec_customer(rows: Seq<RowView>, id: Seq<char>) -> Result<
    CustomerView,
    ApiError,
> {
    match uuid_of_str(id) {
        None => Err(ApiError::InvalidArgument),
        Some(u) => if has_id(rows, u) {
            Ok(customer_of(rows[idx_of_id(rows, u)], id))
        } else {
            Err(ApiError::NotFound)
        },
    }
}

/// What list() answers over a table state.
pub open spec fn spec_customers(rows: Seq<RowView>) -> Seq<CustomerView> {
    Seq::new(rows.len(), |i: int| customer_of(rows[i], uuid_str_of(rows[i].id)))
}

/// What create answers, and the table it leaves, once the fresh identifier
/// `g` is drawn.
pub open spec fn spec_register(
    rows: Seq<RowView>,
    g: u128,
    name: Seq<char>,
    age: i32,
    email: Seq<char>,
    address: Seq<char>,
) -> (Result<CustomerView, ApiError>, Seq<RowView>) {
    let e = lower_of(email);
    if has_id(rows, g) || has_email(rows, e) {
        (Err(ApiError::ConstraintViolation), rows)
    } else {
        let row = RowView { id: g, name, age, email: e, address };
        (Ok(customer_of(row, uuid_str_of(g))), rows.push(row))
    }
}

/// What updateEmail answers, and the table it leaves.
pub open spec fn spec_update_email(rows: Seq<RowView>, id: Seq<char>, email: Seq<char>) -> (
    Result<CustomerView, ApiError>,
    Seq<RowView>,
) {
    match uuid_of_str(id) {
        None => (Err(ApiError::InvalidArgument), rows),
        Some(u) => if !has_id(rows, u) {
            (Err(ApiError::NotFound), rows)
        } else if email_taken_by_other(rows, u, lower_of(email)) {
            (Err(ApiError::ConstraintViolation), rows)
        } else {
            let k = idx_of_id(rows, u);
            let row2 = RowView { email: lower_of(email), ..rows[k] };
            (Ok(customer_of(row2, id)), rows.update(k, row2))
        },
    }
}

/// What delete answers, and the table it leaves.
pub open spec fn spec_delete(rows: Seq<RowView>, id: Seq<char>) -> (
    Result<bool, ApiError>,
    Seq<RowView>,
) {
    match uuid_of_str(id) {
        None => (Err(ApiError::InvalidArgument), rows),
        Some(u) => if !has_id(rows, u) {
            (Err(ApiError::NotFound), rows)
        } else {
            (Ok(true), rows.remove(idx_of_id(rows, u)))
        },
    }
}

/// What destroyAll answers, and the table it leaves.
pub open spec fn spec_destroy(rows: Seq<RowView>) -> (Result<i32, ApiError>, Seq<RowView>) {
    (Ok(rows.len() as i32), Seq::<RowView>::empty())
}

/// Validates an identifier string: the step every targeted operation takes
/// before it touches the store.
pub fn parse_customer_id(id: &str) -> (r: Result<u128, ApiError>)
    ensures
        match r {
            Ok(u) => uuid_of_str(id@) == Some(u),
            Err(e) => e == ApiError::InvalidArgument && uuid_of_str(id@) is None,
        },
{
    match parse_uuid(id) {
        Some(u) => Ok(u),
        None => Err(ApiError::InvalidArgument),
    }
}

/// Lowercases an email as the resolver layer stores it.
pub fn normalize_email(email: &str) -> (r: String)
    ensures
        r@ == lower_of(email@),
{
    lowercase(email)
}

/// The business rule on a targeted mutation's affected-row count: zero rows
/// means the customer does not exist.
pub fn affected_rows_outcome(n: u64) -> (r: Result<u64, ApiError>)
    ensures
        n == 0 ==> r == Err::<u64, ApiError>(ApiError::NotFound),
        n > 0 ==> r == Ok::<u64, ApiError>(n),
{
    if n == 0 {
        Err(ApiError::NotFound)
    } else {
        Ok(n)
    }
}

/// get(id): validate the identifier, then answer the point lookup.
pub fn customer(store: &Store, id: String) -> (r: Result<Customer, ApiError>)
    requires
        store.wf(),
    ensures
        customer_res_view(r) == spec_customer(store@, id@),
{
    let u = match parse_uuid(id.as_str()) {
        None => {
            return Err(ApiError::InvalidArgument);
        },
        Some(u) => u,
    };
    match store.select_by_id(u) {
        None => Err(ApiError::NotFound),
        Some(row) => Ok(
            Customer {
                id,
                name: row.name,
                age: row.age,
                email: row.email,
                address: row.address,
            },
        ),
    }
}

/// list(): every row, in table order, the id printed in its string form.
pub fn customers(store: &Store) -> (r: Result<Vec<Customer>, ApiError>)
    requires
        store.wf(),
    ensures
        r matches Ok(cs) && cs@.len() == store@.len() && (forall|i: int|
            0 <= i < store@.len() ==> #[trigger] cs@[i]@ == spec_customers(store@)[i]),
{
    let rows = store.select_all();
    let mut out: Vec<Customer> = Vec::new();
    let mut i: usize = 0;
    let n = rows.len();
    while i < n
        invariant
            n == rows@.len(),
            rows@.len() == store@.len(),
            forall|k: int| 0 <= k < rows@.len() ==> #[trigger] rows@[k]@ == store@[k],
            i <= n,
            out@.len() == i,
            forall|k: int| 0 <= k < i ==> #[trigger] out@[k]@ == spec_customers(store@)[k],
        decreases n - i,
    {
        let id_str = uuid_to_string(rows[i].id);
        let c = Customer {
            id: id_str,
            name: rows[i].name.clone(),
            age: rows[i].age,
            email: rows[i].email.clone(),
            address: rows[i].address.clone(),
        };
        proof {
            assert(rows@[i as int]@ == store@[i as int]);
            assert(c@ == customer_of(store@[i as int], uuid_str_of(store@[i as int].id)));
        }
        out.push(c);
        i += 1;
    }
    Ok(out)
}

/// create, once the fresh identifier is drawn: normalize the email, insert
/// one row, and hand back the created customer.
pub fn register_customer_with_id(
    store: &mut Store,
    id: u128,
    name: String,
    age: i32,
    email: String,
    address: String,
) -> (r: Result<Customer, ApiError>)
    requires
        old(store).wf(),
    ensures
        final(store).wf(),
        (customer_res_view(r), final(store)@) == spec_register(
            old(store)@,
            id,
            name@,
            age,
            email@,
            address@,
        ),
        r matches Ok(c) ==> c.id@ == uuid_str_of(id) && uuid_of_str(c.id@) == Some(id),
{
    let e = lowercase(email.as_str());
    let row = CustomerRow {
        id,
        name: name.clone(),
        age,
        email: e.clone(),
        address: address.clone(),
    };
    match store.insert_row(row) {
        Err(_) => Err(ApiError::ConstraintViolation),
        Ok(()) => {
            let id_str = uuid_to_string(id);
            let c = Customer { id: id_str, name, age, email: e, address };
            proof {
                assert(c@ == spec_register(old(store)@, id, name@, age, email@, address@).0
                    ->Ok_0);
            }
            Ok(c)
        },
    }
}

/// create: draw a random identifier, then register under it. Whatever value
/// the draw gave, the outcome is that of `spec_register` for that value.
pub fn register_customer(
    store: &mut Store,
    name: String,
    age: i32,
    email: String,
    address: String,
) -> (r: Result<Customer, ApiError>)
    requires
        old(store).wf(),
    ensures
        final(store).wf(),
        exists|g: u128|
            (customer_res_view(r), final(store)@) == #[trigger] spec_register(
                old(store)@,
                g,
                name@,
                age,
                email@,
                address@,
            ) && (r matches Ok(c) ==> c.id@ == uuid_str_of(g) && uuid_of_str(c.id@) == Some(g)),
        has_email(old(store)@, lower_of(email@)) ==> r == Err::<Customer, ApiError>(
            ApiError::ConstraintViolation,
        ) && final(store)@ == old(store)@,
        r is Err ==> final(store)@ == old(store)@,
{
    let g = new_id();
    register_customer_with_id(store, g, name, age, email, address)
}

/// updateEmail: validate the identifier, normalize the email, run the
/// targeted update, then re-read and hand back the updated customer.
pub fn update_customer_email(store: &mut Store, id: String, email: String) -> (r: Result<
    Customer,
    ApiError,
>)
    requires
        old(store).wf(),
    ensures
        final(store).wf(),
        (customer_res_view(r), final(store)@) == spec_update_email(old(store)@, id@, email@),
{
    let u = match parse_uuid(id.as_str()) {
        None => {
            return Err(ApiError::InvalidArgument);
        },
        Some(u) => u,
    };
    let e = lowercase(email.as_str());
    let n = match store.update_email(u, e) {
        Err(_) => {
            return Err(ApiError::ConstraintViolation);
        },
        Ok(n) => n,
    };
    if n == 0 {
        return Err(ApiError::NotFound);
    }
    proof {
        let rows0 = old(store)@;
        let k = idx_of_id(rows0, u);
        assert(store@[k].id == u);
        lemma_idx_of_id(store@, u, k);
    }
    match store.select_by_id(u) {
        Some(row) => Ok(
            Customer {
                id,
                name: row.name,
                age: row.age,
                email: row.email,
                address: row.address,
            },
        ),
        None => {
            // The update left the row in place, so the re-read cannot miss.
            proof {
                assert(false);
            }
            Err(ApiError::StoreError)
        },
    }
}

/// delete: validate the identifier, run the targeted delete, and report
/// whether a row went away.
pub fn delete_customer(store: &mut Store, id: String) -> (r: Result<bool, ApiError>)
    requires
        old(store).wf(),
    ensures
        final(store).wf(),
        (r, final(store)@) == spec_delete(old(store)@, id@),
{
    let u = match parse_uuid(id.as_str()) {
        None => {
            return Err(ApiError::InvalidArgument);
        },
        Some(u) => u,
    };
    let n = store.delete_by_id(u);
    if n == 0 {
        return Err(ApiError::NotFound);
    }
    Ok(true)
}

/// destroyAll: empty the table and report how many rows were removed.
pub fn destroy_customers(store: &mut Store) -> (r: Result<i32, ApiError>)
    requires
        old(store).wf(),
        old(store)@.len() <= i32::MAX,
    ensures
        final(store).wf(),
        (r, final(store)@) == spec_destroy(old(store)@),
{
    let n = store.clear_all();
    Ok(n as i32)
}

} // verus!
