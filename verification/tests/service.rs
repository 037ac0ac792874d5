use hello_pubsub::broadcast_pass::failed_indices_desc;
use hello_pubsub::broadcast_pass::finish_pass;
use hello_pubsub::broadcast_pass::notification_text;
use hello_pubsub::client::request_name;
use hello_pubsub::client::request_value;
use hello_pubsub::registry::ListenerRegistry;
use hello_pubsub::reply::make_reply;
use hello_pubsub::server::HelloWorldImpl;
use hello_pubsub::server::RequestPayload;
use hello_pubsub::server::ServiceError;
use hello_pubsub::subscribe_client::EventListenerImpl;

fn registry_of(handles: &[u64]) -> ListenerRegistry {
    let mut reg = ListenerRegistry::new();
    for &h in handles {
        reg.register(h);
    }
    reg
}

fn contents(reg: &ListenerRegistry) -> Vec<u64> {
    reg.snapshot()
}

#[test]
fn reply_for_fixed_request() {
    assert_eq!(make_reply("Toru", 123), "Hello Toru, I got 123");
}

#[test]
fn reply_for_other_names_and_values() {
    assert_eq!(make_reply("Ada", 0), "Hello Ada, I got 0");
    assert_eq!(make_reply("", 7), "Hello , I got 7");
    assert_eq!(make_reply("Grace", -45), "Hello Grace, I got -45");
    assert_eq!(make_reply("x", i32::MAX), "Hello x, I got 2147483647");
    assert_eq!(make_reply("x", i32::MIN), "Hello x, I got -2147483648");
}

#[test]
fn say_hello_composes_reply() {
    let service = HelloWorldImpl::new();
    let request = RequestPayload { name: String::from("Toru"), value: 123 };
    let reply = service.say_hello(Some(&request)).unwrap();
    assert_eq!(reply.message, "Hello Toru, I got 123");
}

#[test]
fn say_hello_rejects_malformed_request() {
    let service = HelloWorldImpl::new();
    let r = service.say_hello(None);
    assert_eq!(r.unwrap_err(), ServiceError::MalformedRequest);
}

#[test]
fn fixed_client_request_matches_handler_contract() {
    let service = HelloWorldImpl::new();
    let request = RequestPayload {
        name: String::from(request_name()),
        value: request_value(),
    };
    let reply = service.say_hello(Some(&request)).unwrap();
    assert_eq!(reply.message, "Hello Toru, I got 123");
}

#[test]
fn subscribe_appends_listener() {
    let mut service = HelloWorldImpl::new();
    assert!(service.subscribe_events(Some(7)).is_ok());
    assert!(service.subscribe_events(Some(7)).is_ok());
    assert_eq!(contents(&service.event_listeners), vec![7, 7]);
}

#[test]
fn subscribe_rejects_malformed_request() {
    let mut service = HelloWorldImpl::new();
    assert!(service.subscribe_events(Some(1)).is_ok());
    let r = service.subscribe_events(None);
    assert_eq!(r.unwrap_err(), ServiceError::MalformedRequest);
    assert_eq!(contents(&service.event_listeners), vec![1]);
}

#[test]
fn registry_register_and_snapshot() {
    let reg = registry_of(&[3, 1, 4, 1, 5]);
    assert_eq!(reg.len(), 5);
    assert_eq!(reg.get(0), 3);
    assert_eq!(reg.get(3), 1);
    assert_eq!(contents(&reg), vec![3, 1, 4, 1, 5]);
}

#[test]
fn remove_two_of_five_keeps_order() {
    let mut reg = registry_of(&[10, 20, 30, 40, 50]);
    reg.remove_indices_desc(&vec![3, 1]);
    assert_eq!(contents(&reg), vec![10, 30, 50]);
}

#[test]
fn remove_nothing_keeps_everything() {
    let mut reg = registry_of(&[10, 20]);
    reg.remove_indices_desc(&vec![]);
    assert_eq!(contents(&reg), vec![10, 20]);
}

#[test]
fn failed_indices_are_descending() {
    assert_eq!(failed_indices_desc(&vec![true, false, false, true]), vec![2, 1]);
    assert_eq!(failed_indices_desc(&vec![true, true]), Vec::<usize>::new());
    assert_eq!(failed_indices_desc(&vec![false]), vec![0]);
}

#[test]
fn empty_registry_pass_is_a_no_op() {
    let mut reg = ListenerRegistry::new();
    finish_pass(&mut reg, &vec![]);
    assert_eq!(reg.len(), 0);
}

#[test]
fn healthy_pass_keeps_all_listeners() {
    let mut reg = registry_of(&[11, 22, 33]);
    let deliveries = reg.len();
    finish_pass(&mut reg, &vec![true; deliveries]);
    assert_eq!(deliveries, 3);
    assert_eq!(contents(&reg), vec![11, 22, 33]);
}

#[test]
fn failing_listener_is_evicted_after_one_pass() {
    let mut reg = registry_of(&[10, 20, 30]);
    finish_pass(&mut reg, &vec![true, false, true]);
    assert_eq!(contents(&reg), vec![10, 30]);
}

#[test]
fn all_failing_listeners_leave_registry_empty() {
    let mut reg = registry_of(&[1, 2]);
    finish_pass(&mut reg, &vec![false, false]);
    assert_eq!(contents(&reg), Vec::<u64>::new());
}

#[test]
fn registration_during_pass_is_never_lost() {
    let mut reg = registry_of(&[1, 2]);
    let snapshot = reg.snapshot();
    assert_eq!(snapshot, vec![1, 2]);
    // A subscription lands while the pass is still delivering.
    reg.register(3);
    // The pass's outcomes cover only its own snapshot.
    finish_pass(&mut reg, &vec![false, true]);
    assert_eq!(contents(&reg), vec![2, 3]);
}

#[test]
fn listener_records_messages_in_order() {
    let mut listener = EventListenerImpl::new();
    listener.on_event(String::from(notification_text()));
    listener.on_event(String::from("second"));
    assert_eq!(
        listener.received,
        vec![
            String::from("Periodic notification from the server"),
            String::from("second")
        ]
    );
}

#[test]
fn subscribe_then_pass_then_disconnect() {
    // A subscriber registers, survives a healthy pass, then its session
    // dies: the next pass observes the delivery failure and evicts it.
    let mut service = HelloWorldImpl::new();
    service.subscribe_events(Some(42)).unwrap();
    finish_pass(&mut service.event_listeners, &vec![true]);
    assert_eq!(contents(&service.event_listeners), vec![42]);
    finish_pass(&mut service.event_listeners, &vec![false]);
    assert_eq!(contents(&service.event_listeners), Vec::<u64>::new());
}
