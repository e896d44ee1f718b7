use gridsync::codec::Opcode;
use gridsync::handler::{Action, Connection, Event};

fn forwarded(a: Action) -> Option<Vec<u8>> {
    match a {
        Action::Forward(b) => Some(b),
        _ => None,
    }
}

fn is_close(a: &Action) -> bool {
    matches!(a, Action::Close)
}

#[test]
fn first_move_on_grid_is_accepted() {
    let mut c = Connection::new(1);
    let m = Opcode::Move { x: 5, y: 10, id: 1 };
    assert_eq!(forwarded(c.step(Event::Received(m))), Some(m.asbytes()));
    assert_eq!(c.last_x, Some(5));
    assert_eq!(c.last_y, Some(10));
    assert!(c.open);
}

#[test]
fn off_grid_move_is_rejected() {
    let mut c = Connection::new(1);
    let a = c.step(Event::Received(Opcode::Move { x: 3, y: 10, id: 1 }));
    assert!(is_close(&a));
    assert!(!c.open);
    assert_eq!(c.last_x, None);
}

#[test]
fn step_of_five_is_accepted() {
    let mut c = Connection::new(1);
    assert!(forwarded(c.step(Event::Received(Opcode::Move { x: 5, y: 10, id: 1 }))).is_some());
    let m = Opcode::Move { x: 10, y: 10, id: 1 };
    assert_eq!(forwarded(c.step(Event::Received(m))), Some(m.asbytes()));
    assert_eq!(c.last_x, Some(10));
}

#[test]
fn step_of_three_is_rejected() {
    let mut c = Connection::new(1);
    assert!(forwarded(c.step(Event::Received(Opcode::Move { x: 5, y: 10, id: 1 }))).is_some());
    let a = c.step(Event::Received(Opcode::Move { x: 5, y: 13, id: 1 }));
    assert!(is_close(&a));
    assert!(!c.open);
}

#[test]
fn negative_grid_moves_are_accepted() {
    let mut c = Connection::new(4);
    assert!(forwarded(c.step(Event::Received(Opcode::Move { x: -5, y: 0, id: 4 }))).is_some());
    assert!(forwarded(c.step(Event::Received(Opcode::Move { x: -20, y: 5, id: 4 }))).is_some());
    assert!(is_close(&c.step(Event::Received(Opcode::Move { x: -21, y: 5, id: 4 }))));
}

#[test]
fn extreme_coordinates_do_not_overflow() {
    let mut c = Connection::new(1);
    let far = i32::MIN + 3; // a multiple of five
    assert!(forwarded(c.step(Event::Received(Opcode::Move { x: far, y: 0, id: 1 }))).is_some());
    let other = 2_147_483_645; // a multiple of five
    assert!(forwarded(c.step(Event::Received(Opcode::Move { x: other, y: 0, id: 1 }))).is_some());
}

#[test]
fn foreign_identity_is_rejected() {
    let mut c = Connection::new(2);
    let a = c.step(Event::Received(Opcode::Move { x: 5, y: 5, id: 3 }));
    assert!(is_close(&a));
    assert!(!c.open);
}

#[test]
fn welcome_and_disconnect_need_own_identity() {
    let mut c = Connection::new(2);
    let w = Opcode::Welcome { id: 2 };
    assert_eq!(forwarded(c.step(Event::Received(w))), Some(w.asbytes()));
    let d = Opcode::Disconnect { id: 2 };
    assert_eq!(forwarded(c.step(Event::Received(d))), Some(d.asbytes()));
    assert!(is_close(&c.step(Event::Received(Opcode::Disconnect { id: 9 }))));
    let mut c2 = Connection::new(2);
    assert!(is_close(&c2.step(Event::Received(Opcode::Welcome { id: 1 }))));
}

#[test]
fn read_failure_submits_disconnect_once() {
    let mut c = Connection::new(6);
    assert!(forwarded(c.step(Event::Received(Opcode::Move { x: 0, y: 0, id: 6 }))).is_some());
    match c.step(Event::ReadFailed) {
        Action::ForwardThenClose(b) => {
            assert_eq!(b, vec![2, 6, 0, 0, 0]);
            assert_eq!(Opcode::from_bytes(&b), Ok(Opcode::Disconnect { id: 6 }));
        }
        _ => panic!("a failed read must submit a disconnect"),
    }
    assert!(!c.open);
    assert!(is_close(&c.step(Event::ReadFailed)));
    assert!(is_close(&c.step(Event::Received(Opcode::Move { x: 5, y: 5, id: 6 }))));
}

#[test]
fn closed_connection_forwards_nothing() {
    let mut c = Connection::new(1);
    assert!(is_close(&c.step(Event::Received(Opcode::Move { x: 1, y: 0, id: 1 }))));
    assert!(is_close(&c.step(Event::Received(Opcode::Move { x: 5, y: 0, id: 1 }))));
    assert_eq!(c.last_x, None);
}

#[test]
fn one_sender_keeps_its_order() {
    let mut c = Connection::new(3);
    let moves = [
        Opcode::Move { x: 0, y: 0, id: 3 },
        Opcode::Move { x: 5, y: 0, id: 3 },
        Opcode::Move { x: 5, y: -5, id: 3 },
        Opcode::Disconnect { id: 3 },
    ];
    let mut sent = Vec::new();
    for m in moves {
        sent.push(forwarded(c.step(Event::Received(m))).unwrap());
    }
    let expected: Vec<Vec<u8>> = moves.iter().map(|m| m.asbytes()).collect();
    assert_eq!(sent, expected);
}
