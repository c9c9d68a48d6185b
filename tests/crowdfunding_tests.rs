use marketplace::crowdfunding::{Marketplace, Payload, Project};
use marketplace::store::{MarketError, Transfer};
use near_sdk::AccountId;

fn account(name: &str) -> AccountId {
    name.parse().unwrap()
}

fn payload(id: &str, target: u128) -> Payload {
    Payload {
        id: id.to_string(),
        name: "Clean water".to_string(),
        description: "wells for a village".to_string(),
        image: "https://img.example/well.png".to_string(),
        location: "Kano".to_string(),
        target_investment: target,
    }
}

#[test]
fn two_donations_accumulate() {
    let mut m = Marketplace::init();
    let owner = account("owner.near");
    assert_eq!(m.set_product(payload("w1", 1000), owner.clone(), 10), Ok(()));
    let t1 = m.donate_project(&"w1".to_string(), 10);
    assert_eq!(t1, Ok(Transfer { receiver: owner.clone(), amount: 10 }));
    let t2 = m.donate_project(&"w1".to_string(), 10);
    assert_eq!(t2, Ok(Transfer { receiver: owner.clone(), amount: 10 }));
    let p = m.get_project(&"w1".to_string()).unwrap();
    assert_eq!(p.total_donor, 2);
    assert_eq!(p.total_donation, 20);
    assert_eq!(p.owner, owner);
}

#[test]
fn donation_of_another_amount_is_refused() {
    let mut m = Marketplace::init();
    m.set_product(payload("w1", 1000), account("o.near"), 10).unwrap();
    assert_eq!(m.donate_project(&"w1".to_string(), 11), Err(MarketError::AmountMismatch));
    assert_eq!(m.donate_project(&"w1".to_string(), 9), Err(MarketError::AmountMismatch));
    let p = m.get_project(&"w1".to_string()).unwrap();
    assert_eq!(p.total_donor, 0);
    assert_eq!(p.total_donation, 0);
}

#[test]
fn donation_to_unknown_project_is_refused() {
    let mut m = Marketplace::init();
    assert_eq!(m.donate_project(&"nope".to_string(), 10), Err(MarketError::ListingNotFound));
    assert!(m.get_projects().is_empty());
}

#[test]
fn target_is_not_a_cap() {
    let mut m = Marketplace::init();
    m.set_product(payload("w1", 15), account("o.near"), 10).unwrap();
    m.donate_project(&"w1".to_string(), 10).unwrap();
    m.donate_project(&"w1".to_string(), 10).unwrap();
    let p = m.get_project(&"w1".to_string()).unwrap();
    assert_eq!(p.total_donation, 20);
    assert_eq!(p.target_investment, 15);
}

#[test]
fn duplicate_project_keeps_first() {
    let mut m = Marketplace::init();
    let first = account("first.near");
    m.set_product(payload("w1", 1000), first.clone(), 10).unwrap();
    assert_eq!(
        m.set_product(payload("w1", 5), account("second.near"), 99),
        Err(MarketError::DuplicateListing)
    );
    let p = m.get_project(&"w1".to_string()).unwrap();
    assert_eq!(p.owner, first);
    assert_eq!(p.donation, 10);
    assert_eq!(p.target_investment, 1000);
}

#[test]
fn total_donation_overflow_is_refused() {
    let mut m = Marketplace::init();
    let owner = account("o.near");
    m.set_product(payload("big", 0), owner.clone(), u128::MAX).unwrap();
    assert_eq!(
        m.donate_project(&"big".to_string(), u128::MAX),
        Ok(Transfer { receiver: owner, amount: u128::MAX })
    );
    assert_eq!(
        m.donate_project(&"big".to_string(), u128::MAX),
        Err(MarketError::CounterOverflow)
    );
    let p = m.get_project(&"big".to_string()).unwrap();
    assert_eq!(p.total_donor, 1);
    assert_eq!(p.total_donation, u128::MAX);
}

#[test]
fn zero_amount_project_accepts_zero_donations() {
    let mut m = Marketplace::init();
    m.set_product(payload("z", 1), account("o.near"), 0).unwrap();
    assert!(m.donate_project(&"z".to_string(), 0).is_ok());
    assert_eq!(m.donate_project(&"z".to_string(), 1), Err(MarketError::AmountMismatch));
    assert_eq!(m.get_project(&"z".to_string()).unwrap().total_donor, 1);
}

#[test]
fn projects_are_listed_in_creation_order() {
    let mut m = Marketplace::init();
    let o = account("o.near");
    m.set_product(payload("q", 1), o.clone(), 1).unwrap();
    m.set_product(payload("p", 1), o, 2).unwrap();
    let ids: Vec<String> = m.get_projects().into_iter().map(|p| p.id).collect();
    assert_eq!(ids, vec!["q".to_string(), "p".to_string()]);
}

#[test]
fn project_from_payload_records_donation_amount() {
    let owner = account("o.near");
    let p = Project::from_payload(payload("w", 500), owner.clone(), 25);
    assert_eq!(p.donation, 25);
    assert_eq!(p.target_investment, 500);
    assert_eq!(p.owner, owner);
    assert_eq!(p.total_donor, 0);
    assert_eq!(p.total_donation, 0);
}

#[test]
fn project_increments() {
    let mut p = Project::from_payload(payload("w", 500), account("o.near"), 25);
    p.increment_number_donor();
    p.increment_total_donation();
    p.increment_total_donation();
    assert_eq!(p.total_donor, 1);
    assert_eq!(p.total_donation, 50);
}

#[test]
fn restored_project_keeps_its_totals() {
    let mut m = Marketplace::init();
    let mut p = Project::from_payload(payload("r", 100), account("o.near"), 5);
    p.total_donor = 2;
    p.total_donation = 10;
    assert_eq!(m.restore_project(p), Ok(()));
    m.donate_project(&"r".to_string(), 5).unwrap();
    let q = m.get_project(&"r".to_string()).unwrap();
    assert_eq!(q.total_donor, 3);
    assert_eq!(q.total_donation, 15);
}
