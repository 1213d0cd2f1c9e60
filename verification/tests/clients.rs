use weather_mon::clients::{Broadcast, Clients, ReaderEvent};

fn runtime() -> tokio::runtime::Runtime {
    tokio::runtime::Builder::new_current_thread()
        .enable_all()
        .build()
        .unwrap()
}

#[test]
fn clients_are_registered_and_forgotten() {
    let rt = runtime();
    let _guard = rt.enter();
    let mut clients = Clients::new();
    assert!(clients.ids().is_empty());
    let (a, _a_peer) = tokio::net::UnixStream::pair().unwrap();
    let (b, _b_peer) = tokio::net::UnixStream::pair().unwrap();
    clients.insert(1, a);
    clients.insert(2, b);
    let mut ids = clients.ids();
    ids.sort();
    assert_eq!(ids, vec![1, 2]);
    assert_eq!(clients.readers().len(), 2);
    assert!(clients.writer(1).is_some());
    assert!(clients.writer(3).is_none());

    clients.finish_send(1, true);
    assert_eq!(clients.ids().len(), 2);
    clients.finish_send(1, false);
    assert_eq!(clients.ids(), vec![2]);
    assert_eq!(clients.readers().len(), 1);
    assert!(clients.writer(1).is_none());

    clients.forget(2);
    assert!(clients.ids().is_empty());
    assert!(clients.readers().is_empty());
}

#[test]
fn broadcast_goes_in_order_and_stops_at_a_failure() {
    let mut b = Broadcast::new(vec![7, 3, 9]);
    assert_eq!(b.next(), Some(7));
    b.record(true);
    assert_eq!(b.next(), Some(3));
    b.record(false);
    assert_eq!(b.next(), None);
    assert_eq!(b.next(), None);

    let mut all = Broadcast::new(vec![1, 2]);
    assert_eq!(all.next(), Some(1));
    all.record(true);
    assert_eq!(all.next(), Some(2));
    all.record(true);
    assert_eq!(all.next(), None);
}

#[test]
fn broadcast_plan_covers_every_client_once() {
    let rt = runtime();
    let _guard = rt.enter();
    let mut clients = Clients::new();
    for id in [4, 5, 6] {
        let (s, _peer) = tokio::net::UnixStream::pair().unwrap();
        clients.insert(id, s);
    }
    let mut plan = clients.broadcast_plan();
    let mut seen = vec![];
    while let Some(id) = plan.next() {
        seen.push(id);
        plan.record(true);
    }
    seen.sort();
    assert_eq!(seen, vec![4, 5, 6]);
    assert_eq!(clients.ids().len(), 3);
}

#[test]
fn inserting_an_id_again_replaces_the_client() {
    let rt = runtime();
    let _guard = rt.enter();
    let mut clients = Clients::new();
    let (a, _a_peer) = tokio::net::UnixStream::pair().unwrap();
    let (b, _b_peer) = tokio::net::UnixStream::pair().unwrap();
    clients.insert(1, a);
    clients.insert(1, b);
    assert_eq!(clients.readers().len(), 1);
    assert_eq!(clients.ids(), vec![1]);
    clients.forget(1);
    assert!(clients.readers().is_empty());
}

#[test]
fn reader_events_answer_requests_and_forget_closed_clients() {
    let rt = runtime();
    let _guard = rt.enter();
    let mut clients = Clients::new();
    let (a, _a_peer) = tokio::net::UnixStream::pair().unwrap();
    clients.insert(8, a);
    assert_eq!(clients.on_reader_event(8, ReaderEvent::Request), Some(8));
    assert_eq!(clients.on_reader_event(8, ReaderEvent::ReadFailed), None);
    assert_eq!(clients.ids(), vec![8]);
    assert_eq!(clients.on_reader_event(8, ReaderEvent::Closed), None);
    assert!(clients.ids().is_empty());
    assert!(clients.readers().is_empty());
}
