use customers::customer::ApiError;
use customers::resolvers::{
    affected_rows_outcome, customer, customers, delete_customer, destroy_customers,
    normalize_email, parse_customer_id, register_customer, update_customer_email,
};
use customers::store::Store;

#[test]
fn registered_customer_round_trips() {
    let mut store = Store::new();
    let created = register_customer(
        &mut store,
        "Ada".to_string(),
        30,
        "Ada@X.com".to_string(),
        "1 Main St".to_string(),
    )
    .expect("create must succeed on an empty store");

    // The id is a well-formed identifier.
    assert!(parse_customer_id(&created.id).is_ok());
    assert_eq!(created.name, "Ada");
    assert_eq!(created.age, 30);
    assert_eq!(created.email, "ada@x.com");
    assert_eq!(created.address, "1 Main St");

    // A point lookup by the returned id answers the identical customer.
    let fetched = customer(&store, created.id.clone()).expect("lookup must succeed");
    assert_eq!(fetched.id, created.id);
    assert_eq!(fetched.name, created.name);
    assert_eq!(fetched.age, created.age);
    assert_eq!(fetched.email, created.email);
    assert_eq!(fetched.address, created.address);
}

#[test]
fn email_is_stored_lowercased() {
    let mut store = Store::new();
    let created = register_customer(
        &mut store,
        "Ada".to_string(),
        30,
        "A@B.com".to_string(),
        "1 Main St".to_string(),
    )
    .unwrap();
    assert_eq!(created.email, "a@b.com");
    let fetched = customer(&store, created.id.clone()).unwrap();
    assert_eq!(fetched.email, "a@b.com");

    // Normalizing an already-normalized email changes nothing.
    let mut store2 = Store::new();
    let again = register_customer(
        &mut store2,
        "Ada".to_string(),
        30,
        "a@b.com".to_string(),
        "1 Main St".to_string(),
    )
    .unwrap();
    assert_eq!(again.email, "a@b.com");
    assert_eq!(normalize_email("a@b.com"), "a@b.com");
    assert_eq!(normalize_email(&normalize_email("A@B.com")), "a@b.com");
}

#[test]
fn duplicate_email_differing_in_case_is_refused() {
    let mut store = Store::new();
    register_customer(
        &mut store,
        "Ada".to_string(),
        30,
        "Ada@X.com".to_string(),
        "1 Main St".to_string(),
    )
    .unwrap();
    let second = register_customer(
        &mut store,
        "Grace".to_string(),
        45,
        "ada@x.COM".to_string(),
        "2 Side St".to_string(),
    );
    assert_eq!(second.unwrap_err(), ApiError::ConstraintViolation);
    assert_eq!(store.row_count(), 1);
}

#[test]
fn update_on_missing_id_is_not_found() {
    let mut store = Store::new();
    let absent = uuid::Uuid::new_v4().to_string();
    let r = update_customer_email(&mut store, absent, "new@x.com".to_string());
    assert_eq!(r.unwrap_err(), ApiError::NotFound);
    assert_eq!(store.row_count(), 0);
}

#[test]
fn update_rewrites_and_normalizes_the_email() {
    let mut store = Store::new();
    let created = register_customer(
        &mut store,
        "Ada".to_string(),
        30,
        "Ada@X.com".to_string(),
        "1 Main St".to_string(),
    )
    .unwrap();
    let updated =
        update_customer_email(&mut store, created.id.clone(), "New@X.com".to_string()).unwrap();
    assert_eq!(updated.id, created.id);
    assert_eq!(updated.name, "Ada");
    assert_eq!(updated.email, "new@x.com");
    let fetched = customer(&store, created.id.clone()).unwrap();
    assert_eq!(fetched.email, "new@x.com");
}

#[test]
fn update_refuses_anothers_email() {
    let mut store = Store::new();
    register_customer(
        &mut store,
        "Ada".to_string(),
        30,
        "ada@x.com".to_string(),
        "1 Main St".to_string(),
    )
    .unwrap();
    let grace = register_customer(
        &mut store,
        "Grace".to_string(),
        45,
        "grace@x.com".to_string(),
        "2 Side St".to_string(),
    )
    .unwrap();
    let r = update_customer_email(&mut store, grace.id, "ADA@X.com".to_string());
    assert_eq!(r.unwrap_err(), ApiError::ConstraintViolation);
}

#[test]
fn delete_missing_then_existing() {
    let mut store = Store::new();
    let absent = uuid::Uuid::new_v4().to_string();
    assert_eq!(
        delete_customer(&mut store, absent).unwrap_err(),
        ApiError::NotFound
    );

    let created = register_customer(
        &mut store,
        "Ada".to_string(),
        30,
        "ada@x.com".to_string(),
        "1 Main St".to_string(),
    )
    .unwrap();
    assert_eq!(delete_customer(&mut store, created.id.clone()), Ok(true));
    let gone = customer(&store, created.id);
    assert_eq!(gone.unwrap_err(), ApiError::NotFound);
    assert_eq!(store.row_count(), 0);
}

#[test]
fn destroy_all_counts_rows() {
    let mut store = Store::new();
    assert_eq!(destroy_customers(&mut store), Ok(0));
    assert_eq!(store.row_count(), 0);

    for (name, email) in [
        ("Ada", "ada@x.com"),
        ("Grace", "grace@x.com"),
        ("Edsger", "edsger@x.com"),
    ] {
        register_customer(
            &mut store,
            name.to_string(),
            30,
            email.to_string(),
            "1 Main St".to_string(),
        )
        .unwrap();
    }
    assert_eq!(destroy_customers(&mut store), Ok(3));
    assert_eq!(store.row_count(), 0);
    assert_eq!(customers(&store).unwrap().len(), 0);
}

#[test]
fn malformed_ids_are_invalid_arguments() {
    let mut store = Store::new();
    register_customer(
        &mut store,
        "Ada".to_string(),
        30,
        "ada@x.com".to_string(),
        "1 Main St".to_string(),
    )
    .unwrap();

    let bad = "not-a-uuid";
    assert_eq!(
        customer(&store, bad.to_string()).unwrap_err(),
        ApiError::InvalidArgument
    );
    assert_eq!(
        update_customer_email(&mut store, bad.to_string(), "x@y.com".to_string()).unwrap_err(),
        ApiError::InvalidArgument
    );
    assert_eq!(
        delete_customer(&mut store, bad.to_string()).unwrap_err(),
        ApiError::InvalidArgument
    );
    assert_eq!(store.row_count(), 1);
    assert_eq!(parse_customer_id(bad).unwrap_err(), ApiError::InvalidArgument);
}

#[test]
fn list_maps_every_row() {
    let mut store = Store::new();
    let ada = register_customer(
        &mut store,
        "Ada".to_string(),
        30,
        "ada@x.com".to_string(),
        "1 Main St".to_string(),
    )
    .unwrap();
    let grace = register_customer(
        &mut store,
        "Grace".to_string(),
        45,
        "grace@x.com".to_string(),
        "2 Side St".to_string(),
    )
    .unwrap();

    let all = customers(&store).unwrap();
    assert_eq!(all.len(), 2);
    assert_eq!(all[0].id, ada.id);
    assert_eq!(all[0].name, "Ada");
    assert_eq!(all[0].age, 30);
    assert_eq!(all[0].email, "ada@x.com");
    assert_eq!(all[0].address, "1 Main St");
    assert_eq!(all[1].id, grace.id);
    assert_eq!(all[1].name, "Grace");

    // The printed ids parse back to values the uuid crate agrees on.
    let u0 = uuid::Uuid::parse_str(&all[0].id).unwrap();
    assert_eq!(u0.to_string(), all[0].id);
}

#[test]
fn generated_ids_differ() {
    let mut store = Store::new();
    let a = register_customer(
        &mut store,
        "Ada".to_string(),
        30,
        "ada@x.com".to_string(),
        "1 Main St".to_string(),
    )
    .unwrap();
    let b = register_customer(
        &mut store,
        "Grace".to_string(),
        45,
        "grace@x.com".to_string(),
        "2 Side St".to_string(),
    )
    .unwrap();
    assert_ne!(a.id, b.id);
}

#[test]
fn full_scenario() {
    let mut store = Store::new();
    let created = register_customer(
        &mut store,
        "Ada".to_string(),
        30,
        "Ada@X.com".to_string(),
        "1 Main St".to_string(),
    )
    .unwrap();
    assert_eq!(created.name, "Ada");
    assert_eq!(created.age, 30);
    assert_eq!(created.email, "ada@x.com");
    assert_eq!(created.address, "1 Main St");
    assert!(uuid::Uuid::parse_str(&created.id).is_ok());

    let fetched = customer(&store, created.id.clone()).unwrap();
    assert_eq!(fetched.name, "Ada");
    assert_eq!(fetched.email, "ada@x.com");

    let updated =
        update_customer_email(&mut store, created.id.clone(), "New@X.com".to_string()).unwrap();
    assert_eq!(updated.email, "new@x.com");

    assert_eq!(delete_customer(&mut store, created.id.clone()), Ok(true));
    assert_eq!(
        customer(&store, created.id).unwrap_err(),
        ApiError::NotFound
    );
}

#[test]
fn affected_rows_rule() {
    assert_eq!(affected_rows_outcome(0).unwrap_err(), ApiError::NotFound);
    assert_eq!(affected_rows_outcome(1), Ok(1));
    assert_eq!(affected_rows_outcome(7), Ok(7));
}

#[test]
fn normalize_email_lowercases() {
    assert_eq!(normalize_email("Ada@X.com"), "ada@x.com");
    assert_eq!(normalize_email(""), "");
    assert_eq!(normalize_email("MiXeD@CaSe.Org"), "mixed@case.org");
}
