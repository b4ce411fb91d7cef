use jencrm::clients::CreateClient;
use jencrm::date::Date;
use jencrm::deals::{CreateDeal, DealStatus};
use jencrm::store::{ApiError, Db};

fn client_input(first: &str, last: &str) -> CreateClient {
    CreateClient {
        first_name: first.to_string(),
        last_name: last.to_string(),
        email: None,
        phone: None,
        passport_data: None,
    }
}

fn deal_input(client_id: i32) -> CreateDeal {
    CreateDeal {
        client_id,
        deal_amount: 100_000,
        commission_percent: 1_000,
        tour_operator: "TezTour".to_string(),
        deal_date: Date::new(2024, 1, 1).unwrap(),
        payment_due_date: Date::new(2024, 1, 15).unwrap(),
        status: None,
        description: None,
    }
}

#[test]
fn create_client_scenario() {
    // POST /api/clients {"first_name":"Ivan","last_name":"Petrov"}
    let mut db = Db::new();
    let c = db.create_client(client_input("Ivan", "Petrov"), 0).unwrap();
    assert!(c.id > 0);
    assert_eq!(c.id, 1);
    assert_eq!(c.first_name, "Ivan");
    assert_eq!(c.last_name, "Petrov");
    assert_eq!(c.email, None);
    assert_eq!(c.phone, None);
}

#[test]
fn create_then_get_client() {
    let mut db = Db::new();
    let input = CreateClient {
        first_name: "Anna".to_string(),
        last_name: "Smirnova".to_string(),
        email: Some("anna@example.com".to_string()),
        phone: Some("+7-900-000-00-00".to_string()),
        passport_data: Some("{\"series\":\"1234\"}".to_string()),
    };
    let created = db.create_client(input, 42).unwrap();
    let fetched = db.get_client(created.id).unwrap();
    assert_eq!(fetched, created);
    assert_eq!(fetched.first_name, "Anna");
    assert_eq!(fetched.last_name, "Smirnova");
    assert_eq!(fetched.email.as_deref(), Some("anna@example.com"));
    assert_eq!(fetched.phone.as_deref(), Some("+7-900-000-00-00"));
    assert_eq!(fetched.passport_data.as_deref(), Some("{\"series\":\"1234\"}"));
    assert_eq!(fetched.created_at, Some(42));
    assert_eq!(fetched.updated_at, Some(42));
}

#[test]
fn update_then_get_client() {
    let mut db = Db::new();
    let input = CreateClient {
        first_name: "Anna".to_string(),
        last_name: "Smirnova".to_string(),
        email: Some("anna@example.com".to_string()),
        phone: Some("+7-900-000-00-00".to_string()),
        passport_data: None,
    };
    let created = db.create_client(input, 10).unwrap();
    // Full replacement: the update payload omits email and phone, so
    // the stored row drops them too.
    let replacement = client_input("Ann", "Smith");
    let updated = db.update_client(created.id, replacement).unwrap();
    let fetched = db.get_client(created.id).unwrap();
    assert_eq!(fetched, updated);
    assert_eq!(fetched.first_name, "Ann");
    assert_eq!(fetched.last_name, "Smith");
    assert_eq!(fetched.email, None);
    assert_eq!(fetched.phone, None);
    assert_eq!(fetched.id, created.id);
    assert_eq!(fetched.created_at, Some(10));
}

#[test]
fn update_missing_client_not_found() {
    let mut db = Db::new();
    let r = db.update_client(99, client_input("A", "B"));
    assert_eq!(r.unwrap_err(), ApiError::NotFound(99));
}

#[test]
fn delete_then_get_client() {
    let mut db = Db::new();
    let c = db.create_client(client_input("Ivan", "Petrov"), 0).unwrap();
    db.delete_client(c.id).unwrap();
    assert_eq!(db.get_client(c.id).unwrap_err(), ApiError::NotFound(c.id));
    assert_eq!(db.delete_client(c.id).unwrap_err(), ApiError::NotFound(c.id));
}

#[test]
fn never_issued_id_not_found() {
    let db = Db::new();
    assert_eq!(db.get_client(7).unwrap_err(), ApiError::NotFound(7));
    assert_eq!(db.get_deal(7).unwrap_err(), ApiError::NotFound(7));
}

#[test]
fn deal_status_defaults_to_draft() {
    let mut db = Db::new();
    db.create_client(client_input("Ivan", "Petrov"), 0).unwrap();
    let d = db.create_deal(deal_input(1), 0).unwrap();
    assert_eq!(d.status, DealStatus::Draft);

    let mut named = deal_input(1);
    named.status = Some(DealStatus::Active);
    let d2 = db.create_deal(named, 0).unwrap();
    assert_eq!(d2.status, DealStatus::Active);
}

#[test]
fn listing_orders_by_id() {
    let mut db = Db::new();
    db.create_client(client_input("A", "A"), 0).unwrap();
    db.create_client(client_input("B", "B"), 0).unwrap();
    db.create_client(client_input("C", "C"), 0).unwrap();
    db.delete_client(2).unwrap();
    db.create_client(client_input("D", "D"), 0).unwrap();
    let ids: Vec<i32> = db.get_clients().iter().map(|c| c.id).collect();
    assert_eq!(ids, vec![1, 3, 4]);

    for _ in 0..3 {
        db.create_deal(deal_input(1), 0).unwrap();
    }
    let deal_ids: Vec<i32> = db.get_deals().iter().map(|d| d.id).collect();
    assert_eq!(deal_ids, vec![1, 2, 3]);
}

#[test]
fn create_deal_scenario() {
    // POST /api/deals {"client_id":1,"deal_amount":1000.0,"commission_percent":10.0,...}
    // with the decimal quantities carried in hundredths.
    let mut db = Db::new();
    db.create_client(client_input("Ivan", "Petrov"), 0).unwrap();
    let d = db.create_deal(deal_input(1), 0).unwrap();
    assert_eq!(d.id, 1);
    assert_eq!(d.client_id, 1);
    assert_eq!(d.deal_amount, 100_000);
    assert_eq!(d.commission_percent, 1_000);
    // 1000.00 * 10.00% = 100.00
    assert_eq!(d.commission_amount, 10_000);
    assert_eq!(d.status, DealStatus::Draft);
    assert_eq!(d.tour_operator, "TezTour");
    assert_eq!(d.deal_date, Date::new(2024, 1, 1).unwrap());
    assert_eq!(d.payment_due_date, Date::new(2024, 1, 15).unwrap());
}

#[test]
fn create_then_get_deal() {
    let mut db = Db::new();
    db.create_client(client_input("Ivan", "Petrov"), 5).unwrap();
    let mut input = deal_input(1);
    input.description = Some("two weeks, all inclusive".to_string());
    let created = db.create_deal(input, 5).unwrap();
    let fetched = db.get_deal(created.id).unwrap();
    assert_eq!(fetched, created);
    assert_eq!(fetched.description.as_deref(), Some("two weeks, all inclusive"));
    assert_eq!(fetched.created_at, Some(5));
    assert_eq!(fetched.updated_at, Some(5));
}

#[test]
fn create_client_requires_names() {
    let mut db = Db::new();
    let r = db.create_client(client_input("", "Petrov"), 0);
    assert_eq!(r.unwrap_err(), ApiError::Validation);
    let r = db.create_client(client_input("Ivan", ""), 0);
    assert_eq!(r.unwrap_err(), ApiError::Validation);
    // Nothing was stored by the rejected requests.
    assert!(db.get_clients().is_empty());
}

#[test]
fn create_deal_checks_client_exists() {
    let mut db = Db::new();
    let r = db.create_deal(deal_input(1), 0);
    assert_eq!(r.unwrap_err(), ApiError::ForeignKey(1));
    assert!(db.get_deals().is_empty());
}

#[test]
fn listing_returns_stored_rows() {
    let mut db = Db::new();
    let a = db.create_client(client_input("Ivan", "Petrov"), 1).unwrap();
    let b = db.create_client(client_input("Anna", "Smirnova"), 2).unwrap();
    let all = db.get_clients();
    assert_eq!(all.len(), 2);
    assert_eq!(all[0], a);
    assert_eq!(all[1], b);
}

#[test]
fn id_space_checks() {
    let db = Db::new();
    assert!(db.can_create_client());
    assert!(db.can_create_deal());
}
