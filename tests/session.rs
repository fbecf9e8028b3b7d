use registration_hub::data::Timestamp;
use registration_hub::hub::Hub;
use registration_hub::protocol::Message;
use registration_hub::session::{Effect, Event, Phase, Session};

fn at(secs: i64) -> Timestamp {
    Timestamp { secs, nanos: 0 }
}

fn connect(hub: &mut Hub, secret: &str, t: Timestamp) -> (Session, Vec<Effect>) {
    let mut s = Session::new();
    assert!(s.step(hub, Event::Accepted, t).is_empty());
    assert_eq!(s.phase(), Phase::Authenticating);
    let effects = s.step(hub, Event::Text(secret.to_string()), t);
    (s, effects)
}

#[test]
fn handshake_activates_and_announces() {
    let mut hub = Hub::init("secret".to_string());
    let (s, effects) = connect(&mut hub, " secret\n", at(5));
    assert_eq!(s.phase(), Phase::Active { id: 1 });
    assert_eq!(
        effects,
        vec![
            Effect::Publish(Message::PeerJoined { total: 1, last_joined: Some(at(5)) }),
            Effect::SendSnapshot,
            Effect::Subscribe,
        ]
    );
    assert_eq!(hub.count(), 1);
}

#[test]
fn failed_handshake_sends_nothing_and_leaves_count() {
    let mut hub = Hub::init("secret".to_string());
    let (_b, _) = connect(&mut hub, "secret", at(1));
    assert_eq!(hub.count(), 1);
    let (mut s, effects) = connect(&mut hub, "wrong", at(2));
    assert_eq!(s.phase(), Phase::Closed);
    assert_eq!(effects, vec![Effect::Close]);
    assert_eq!(hub.count(), 1);
    // nothing further happens on a closed connection
    assert!(s.step(&mut hub, Event::Text("secret".to_string()), at(3)).is_empty());
    assert!(s.step(&mut hub, Event::Ended, at(3)).is_empty());
    assert_eq!(s.phase(), Phase::Closed);
    assert_eq!(hub.count(), 1);
}

#[test]
fn non_text_handshake_closes() {
    let mut hub = Hub::init("secret".to_string());
    let mut s = Session::new();
    s.step(&mut hub, Event::Accepted, at(0));
    assert_eq!(s.step(&mut hub, Event::Other, at(0)), vec![Effect::Close]);
    assert_eq!(s.phase(), Phase::Closed);
    let mut t = Session::new();
    t.step(&mut hub, Event::Accepted, at(0));
    assert_eq!(t.step(&mut hub, Event::Ended, at(0)), vec![Effect::Close]);
    assert_eq!(hub.count(), 0);
}

#[test]
fn event_before_accept_closes() {
    let mut hub = Hub::init("secret".to_string());
    let mut s = Session::new();
    assert_eq!(s.step(&mut hub, Event::Text("secret".to_string()), at(0)), vec![Effect::Close]);
    assert_eq!(s.phase(), Phase::Closed);
    assert_eq!(hub.count(), 0);
}

#[test]
fn joining_peer_is_announced_with_count_after_join() {
    let mut hub = Hub::init("secret".to_string());
    let (_b, eb) = connect(&mut hub, "secret", at(1));
    let (_c, ec) = connect(&mut hub, "secret", at(2));
    assert_eq!(eb[0], Effect::Publish(Message::PeerJoined { total: 1, last_joined: Some(at(1)) }));
    assert_eq!(ec[0], Effect::Publish(Message::PeerJoined { total: 2, last_joined: Some(at(2)) }));
    let (a, ea) = connect(&mut hub, "secret", at(3));
    assert_eq!(a.phase(), Phase::Active { id: 3 });
    // one announcement, published before A subscribes, snapshot sent directly
    let published: Vec<&Effect> = ea.iter().filter(|e| matches!(e, Effect::Publish(_))).collect();
    assert_eq!(published.len(), 1);
    assert_eq!(ea[0], Effect::Publish(Message::PeerJoined { total: 3, last_joined: Some(at(3)) }));
    assert_eq!(ea[1], Effect::SendSnapshot);
    assert_eq!(ea[2], Effect::Subscribe);
    assert_eq!(hub.count(), 3);
}

#[test]
fn active_session_forwards_text_and_ignores_other_frames() {
    let mut hub = Hub::init("secret".to_string());
    let (mut s, _) = connect(&mut hub, "secret", at(1));
    let text = "{\"type\":\"register\",\"address\":\"abc123\"}".to_string();
    assert_eq!(s.step(&mut hub, Event::Text(text.clone()), at(2)), vec![Effect::Process(text)]);
    assert!(s.step(&mut hub, Event::Other, at(2)).is_empty());
    assert!(s.step(&mut hub, Event::Accepted, at(2)).is_empty());
    assert_eq!(s.phase(), Phase::Active { id: 1 });
    assert_eq!(hub.count(), 1);
}

#[test]
fn unclean_disconnect_announces_departure() {
    let mut hub = Hub::init("secret".to_string());
    let (_b, _) = connect(&mut hub, "secret", at(1));
    let (_c, _) = connect(&mut hub, "secret", at(2));
    let (mut a, _) = connect(&mut hub, "secret", at(3));
    assert_eq!(hub.count(), 3);
    let effects = a.step(&mut hub, Event::Ended, at(4));
    assert_eq!(
        effects,
        vec![
            Effect::StopLoops,
            Effect::Publish(Message::PeerLeft { total: 2, last_left: Some(at(4)) }),
        ]
    );
    assert_eq!(a.phase(), Phase::Closed);
    assert_eq!(hub.count(), 2);
    assert!(!hub.is_member(3));
}

#[test]
fn send_failure_closes_the_session() {
    let mut hub = Hub::init("secret".to_string());
    let (mut a, _) = connect(&mut hub, "secret", at(1));
    let effects = a.step(&mut hub, Event::SendFailed, at(2));
    assert_eq!(
        effects,
        vec![
            Effect::StopLoops,
            Effect::Publish(Message::PeerLeft { total: 0, last_left: Some(at(2)) }),
        ]
    );
    assert_eq!(hub.count(), 0);
}
