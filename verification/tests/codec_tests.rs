use meta_cross::codec::{decode_frame, encode_command, start_commands, Command};
use meta_cross::engine::{setup, Fairness};
use meta_cross::game::{Coord, Sign};
use meta_cross::lobby::{join_decision, lobby_step, LobbyEvent, LobbyStep};

fn c(x: usize, y: usize) -> Coord {
    Coord::new(x, y)
}

#[test]
fn decode_queue_frame() {
    assert!(matches!(decode_frame(&[0]), Command::Queue));
}

#[test]
fn decode_place_frame() {
    match decode_frame(&[1, 2, 0, 1, 1]) {
        Command::Place(outer, inner) => {
            assert_eq!(outer, c(2, 0));
            assert_eq!(inner, c(1, 1));
        }
        other => panic!("expected a place command, got {:?}", other),
    }
}

#[test]
fn decode_rejects_out_of_range_components() {
    assert!(matches!(decode_frame(&[1, 3, 0, 0, 0]), Command::Leave));
    assert!(matches!(decode_frame(&[1, 0, 3, 0, 0]), Command::Leave));
    assert!(matches!(decode_frame(&[1, 0, 0, 3, 0]), Command::Leave));
    assert!(matches!(decode_frame(&[1, 0, 0, 0, 255]), Command::Leave));
}

#[test]
fn decode_rejects_wrong_length_and_unknown_opcode() {
    assert!(matches!(decode_frame(&[]), Command::Leave));
    assert!(matches!(decode_frame(&[1, 0, 0, 0]), Command::Leave));
    assert!(matches!(decode_frame(&[1, 0, 0, 0, 0, 0]), Command::Leave));
    assert!(matches!(decode_frame(&[0, 0]), Command::Leave));
    assert!(matches!(decode_frame(&[2, 0, 0, 0, 0]), Command::Leave));
    assert!(matches!(decode_frame(&[9]), Command::Leave));
}

#[test]
fn place_frame_round_trips() {
    for ox in 0..3 {
        for oy in 0..3 {
            for ix in 0..3 {
                for iy in 0..3 {
                    let cmd = Command::Place(c(ox, oy), c(ix, iy));
                    let bytes = encode_command(&cmd).expect("place encodes");
                    assert_eq!(
                        bytes,
                        vec![1, ox as u8, oy as u8, ix as u8, iy as u8]
                    );
                    match decode_frame(&bytes) {
                        Command::Place(outer, inner) => {
                            assert_eq!(outer, c(ox, oy));
                            assert_eq!(inner, c(ix, iy));
                        }
                        other => panic!("round trip lost the place: {:?}", other),
                    }
                }
            }
        }
    }
}

#[test]
fn encode_queue_and_start() {
    assert_eq!(encode_command(&Command::Queue), Some(vec![0]));
    assert_eq!(
        encode_command(&Command::Start(Sign::Cross, Sign::Circle)),
        Some(vec![0, 0, 1])
    );
    assert_eq!(
        encode_command(&Command::Start(Sign::Circle, Sign::Circle)),
        Some(vec![0, 1, 1])
    );
}

#[test]
fn encode_placement_broadcasts() {
    assert_eq!(
        encode_command(&Command::PlaceAndMove(c(1, 2), c(0, 1), Sign::Circle)),
        Some(vec![1, 1, 2, 0, 1, 1])
    );
    assert_eq!(
        encode_command(&Command::PlaceAndTie(c(0, 0), c(2, 2), Sign::Cross)),
        Some(vec![3, 0, 0, 2, 2, 0])
    );
    let cells = vec![c(0, 0), c(1, 0), c(2, 0)];
    assert_eq!(
        encode_command(&Command::PlaceAndWin(c(1, 1), c(2, 0), Sign::Cross, cells)),
        Some(vec![2, 1, 1, 2, 0, 0, 0, 0, 1, 0, 2, 0])
    );
}

#[test]
fn encode_forfeit_notice_and_leave() {
    assert_eq!(encode_command(&Command::WinByForfeit), Some(vec![4]));
    assert_eq!(encode_command(&Command::Leave), None);
}

#[test]
fn start_commands_carry_each_side_its_sign() {
    let none = Fairness { did_start_last_game: true, last_game_sign: None };
    let plan = setup(&none, &none, false, true);
    let (first, second) = start_commands(&plan);
    match first {
        Command::Start(reference, opening) => {
            assert_eq!(reference, Sign::Cross);
            assert_eq!(opening, Sign::Circle);
        }
        other => panic!("expected a start command, got {:?}", other),
    }
    match second {
        Command::Start(reference, opening) => {
            assert_eq!(reference, Sign::Circle);
            assert_eq!(opening, Sign::Circle);
        }
        other => panic!("expected a start command, got {:?}", other),
    }
}

#[test]
fn lobby_steps_follow_the_slot() {
    assert!(matches!(
        lobby_step(false, LobbyEvent::Arrival),
        LobbyStep::Store
    ));
    assert!(matches!(
        lobby_step(true, LobbyEvent::WaitingSpoke),
        LobbyStep::DismissWaiting
    ));
    assert!(matches!(
        lobby_step(true, LobbyEvent::Arrival),
        LobbyStep::StartMatch
    ));
}

#[test]
fn join_decision_queues_only_on_queue() {
    assert!(join_decision(&Command::Queue));
    assert!(!join_decision(&Command::Leave));
    assert!(!join_decision(&Command::Place(c(0, 0), c(0, 0))));
    assert!(!join_decision(&Command::WinByForfeit));
}
