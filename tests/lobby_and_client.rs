use hostess::client::{Inbox, Poll};
use hostess::lobby::Lobby;
use hostess::protocol::ServerMsg;
use hostess::thing::Solid;

#[test]
fn lobby_records_fresh_ids() {
    let mut lobby: Lobby<&str> = Lobby::new();
    let a = lobby.new_host(|_| "a").unwrap();
    let b = lobby.new_host(|_| "b").unwrap();
    assert_ne!(a, b);
    assert_eq!(lobby.len(), 2);
    assert_eq!(lobby.get_host(a), Some(&"a"));
    assert_eq!(lobby.get_host(b), Some(&"b"));
    assert_eq!(lobby.entry(0), (a, &"a"));
    assert_eq!(lobby.get_host(0), None);
}

#[test]
fn lobby_ids_are_version_four_uuids() {
    let mut lobby: Lobby<u128> = Lobby::new();
    let id = lobby.new_host(|id| id).unwrap();
    assert_eq!((id >> 76) & 0xF, 4);
    assert_eq!(lobby.get_host(id), Some(&id));
}

#[test]
fn inbox_waits_then_drains() {
    let mut inbox = Inbox::new();
    assert_eq!(inbox.messages(), Poll::Closed);
    assert_eq!(inbox.poll_messages(), None);
    inbox.connected();
    assert!(inbox.can_send());
    assert_eq!(inbox.messages(), Poll::Pending);
    assert!(inbox.received(Some(ServerMsg::JoinedLobby {})));
    assert!(inbox.received(Some(ServerMsg::Custom { msg: vec![1] })));
    assert_eq!(
        inbox.messages(),
        Poll::Ready(vec![ServerMsg::JoinedLobby {}, ServerMsg::Custom { msg: vec![1] }])
    );
    assert_eq!(inbox.poll_messages(), Some(vec![]));
}

#[test]
fn inbox_keeps_messages_after_disconnect() {
    let mut inbox = Inbox::new();
    inbox.connected();
    inbox.received(Some(ServerMsg::JoinedLobby {}));
    assert!(!inbox.received(None));
    assert!(!inbox.is_connected());
    assert!(!inbox.can_send());
    assert_eq!(inbox.messages(), Poll::Ready(vec![ServerMsg::JoinedLobby {}]));
    assert_eq!(inbox.messages(), Poll::Closed);
}

#[test]
fn solid_default_and_blocking() {
    assert_eq!(Solid::default(), Solid::Solid);
    assert!(Solid::Partial.is_blocked_by(Solid::Solid));
    assert!(Solid::Solid.is_blocked_by(Solid::Solid));
    assert!(!Solid::NonSolid.is_blocked_by(Solid::Solid));
    assert!(!Solid::Solid.is_blocked_by(Solid::Partial));
    assert!(!Solid::Partial.is_blocked_by(Solid::NonSolid));
}

#[test]
fn insert_host_records_new_ids_only() {
    let mut lobby: Lobby<&str> = Lobby::new();
    assert!(lobby.insert_host(5, |_| "five"));
    assert!(lobby.insert_host(6, |_| "six"));
    assert!(!lobby.insert_host(5, |_| "again"));
    assert_eq!(lobby.len(), 2);
    assert_eq!(lobby.get_host(5), Some(&"five"));
    assert_eq!(lobby.entry(1), (6, &"six"));
}

#[test]
fn insert_host_passes_the_id_to_make() {
    let mut lobby: Lobby<u128> = Lobby::new();
    assert!(lobby.insert_host(42, |id| id + 1));
    assert_eq!(lobby.get_host(42), Some(&43));
}
