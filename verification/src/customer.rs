use vstd::prelude::*;

verus! {

/// The kinds of failure a resolver reports.
#[derive(Clone, Copy, Debug, PartialEq, Eq, Structural)]
pub enum ApiError {
    /// The identifier string does not parse as a customer id.
    InvalidArgument,
    /// The write would duplicate a column the store keeps unique.
    ConstraintViolation,
    /// A targeted mutation or point lookup matched no row.
    NotFound,
    /// The store could not be reached or answered out of protocol.
    StoreError,
}

/// One persisted row of the customers table; the id in its 128-bit form.
#[derive(Debug)]
pub struct CustomerRow {
    pub id: u128,
    pub name: String,
    pub age: i32,
    pub email: String,
    pub address: String,
}

/// Mathematical image of a row.
pub ghost struct RowView {
    pub id: u128,
    pub name: Seq<char>,
    pub age: i32,
    pub email: Seq<char>,
    pub address: Seq<char>,
}

impl View for CustomerRow {
    type V = RowView;

    open spec fn view(&self) -> RowView {
        RowView {
            id: self.id,
            name: self.name@,
            age: self.age,
            email: self.email@,
            address: self.address@,
        }
    }
}

impl CustomerRow {
    /// A field-for-field copy, with the copy's view pinned to the original's.
    pub fn duplicate(&self) -> (r: CustomerRow)
        ensures
            r@ == self@,
    {
        CustomerRow {
            id: self.id,
            name: self.name.clone(),
            age: self.age,
            email: self.email.clone(),
            address: self.address.clone(),
        }
    }
}

/// A customer as handed to API callers; the id in its string form.
#[derive(Debug)]
pub struct Customer {
    pub id: String,
    pub name: String,
    pub age: i32,
    pub email: String,
    pub address: String,
}

/// Mathematical image of a customer.
pub ghost struct CustomerView {
    pub id: Seq<char>,
    pub name: Seq<char>,
    pub age: i32,
    pub email: Seq<char>,
    pub address: Seq<char>,
}

impl View for Customer {
    type V = CustomerView;

    open spec fn view(&self) -> CustomerView {
        CustomerView {
            id: self.id@,
            name: self.name@,
            age: self.age,
            email: self.email@,
            address: self.address@,
        }
    }
}

} // verus!
