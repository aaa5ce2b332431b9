use trailbase::subscribe::{
    action_from_code, db_event, dead_subscriptions, subscription_target, DbEvent, Delivery, RecordAction,
    Subscription, SubscriptionRegistry, SubscriptionTarget,
};
use trailbase::records::SqlValue;

fn sub(id: i64) -> Subscription<u32> {
    Subscription { subscription_id: id, record_api_name: "api_name".to_string(), user: None, channel: id as u32 }
}

#[test]
fn hook_follows_registry_population() {
    let mut reg: SubscriptionRegistry<u32> = SubscriptionRegistry::new();
    assert!(!reg.hook_installed());
    assert!(!reg.wants_event("test", 0));
    assert!(reg.add_record_subscription("test".to_string(), 0, sub(1)));
    assert!(reg.hook_installed());
    assert!(!reg.add_table_subscription("test".to_string(), sub(2)));
    assert_eq!(reg.num_record_subscriptions(), 1);
    assert!(reg.wants_event("test", 0));
    assert!(reg.wants_event("test", 5));
    assert!(!reg.wants_event("other", 0));

    assert!(!reg.remove_record_subscription("test", 0, 1));
    assert_eq!(reg.num_record_subscriptions(), 0);
    assert!(reg.hook_installed());
    assert!(reg.reap_table("test", &vec![2]));
    assert!(!reg.hook_installed());
    assert!(!reg.wants_event("test", 0));
}

#[test]
fn record_delete_reaps_entry() {
    let mut reg: SubscriptionRegistry<u32> = SubscriptionRegistry::new();
    reg.add_record_subscription("message".to_string(), 1, sub(10));
    reg.add_record_subscription("message".to_string(), 2, sub(11));

    // An update of record 1 reaches subscriber 10 only.
    let targets = reg.targets("message", Some(1));
    assert_eq!(targets.len(), 1);
    assert_eq!(reg.registration(targets[0]).sub.subscription_id, 10);
    assert!(!reg.reap_record("message", 1, &vec![], RecordAction::Update));
    assert_eq!(reg.num_record_subscriptions(), 2);

    // Deleting record 1 drops its entry.
    assert!(!reg.reap_record("message", 1, &vec![], RecordAction::Delete));
    assert_eq!(reg.num_record_subscriptions(), 1);
    assert!(!reg.wants_event("message", 1));
    assert!(reg.targets("message", Some(1)).is_empty());
    assert!(reg.wants_event("message", 2));

    assert!(reg.reap_record("message", 2, &vec![], RecordAction::Delete));
    assert!(!reg.hook_installed());
}

#[test]
fn dead_consumers_are_reaped() {
    let mut reg: SubscriptionRegistry<u32> = SubscriptionRegistry::new();
    reg.add_table_subscription("t".to_string(), sub(1));
    reg.add_table_subscription("t".to_string(), sub(2));
    reg.add_table_subscription("t".to_string(), sub(3));
    let outcomes = vec![(1, Delivery::Sent), (2, Delivery::Closed), (3, Delivery::Full)];
    let dead = dead_subscriptions(&outcomes);
    assert_eq!(dead, vec![2]);
    assert!(!reg.reap_table("t", &dead));
    assert_eq!(reg.targets("t", None).len(), 2);
    let dead = dead_subscriptions(&vec![(1, Delivery::ApiGone), (3, Delivery::AccessDenied)]);
    assert!(reg.reap_table("t", &dead));
    assert!(!reg.hook_installed());
    assert!(!reg.wants_event("t", 1));
}

#[test]
fn purge_drops_a_table() {
    let mut reg: SubscriptionRegistry<u32> = SubscriptionRegistry::new();
    reg.add_table_subscription("a".to_string(), sub(1));
    reg.add_record_subscription("a".to_string(), 4, sub(2));
    reg.add_record_subscription("b".to_string(), 4, sub(3));
    assert!(!reg.purge_table("a"));
    assert_eq!(reg.len(), 1);
    assert!(reg.purge_table("b"));
    assert!(!reg.hook_installed());
}

#[test]
fn actions_and_events() {
    assert_eq!(action_from_code(9), Some(RecordAction::Delete));
    assert_eq!(action_from_code(18), Some(RecordAction::Insert));
    assert_eq!(action_from_code(23), Some(RecordAction::Update));
    assert_eq!(action_from_code(1), None);
    let names = vec!["id".to_string(), "text".to_string(), "_owner".to_string()];
    let values = vec![SqlValue::Integer(0), SqlValue::Text("bar".to_string()), SqlValue::Null];
    match db_event(RecordAction::Update, &names, &values) {
        DbEvent::Update(Some(fields)) => {
            assert_eq!(fields.len(), 2);
            assert_eq!(fields[0].0, "id");
            assert!(matches!(fields[0].1, SqlValue::Integer(0)));
            assert_eq!(fields[1].0, "text");
            assert!(matches!(&fields[1].1, SqlValue::Text(t) if t == "bar"));
        },
        x => panic!("Expected update, got: {x:?}"),
    }
    assert!(matches!(db_event(RecordAction::Delete, &names, &values), DbEvent::Delete(Some(_))));
}

#[test]
fn subscription_paths() {
    assert!(matches!(subscription_target("*"), SubscriptionTarget::Table));
    assert!(matches!(subscription_target("12"), SubscriptionTarget::Record(r) if r == "12"));
}
