use bincode::rustc_serialize::{decode, encode};
use bincode::SizeLimit;
use deeplearning::fitness::Fitness;
use deeplearning::wire::{Command, Reply, Request, WireError};

fn fitness(value: f64) -> Fitness {
    Fitness::from_bits(value.to_bits())
}

#[test]
fn opcodes_are_a_zero_and_the_command() {
    assert_eq!(Command::Start.opcode(), [0x00, 0x01]);
    assert_eq!(Command::Train.opcode(), [0x00, 0x02]);
    assert_eq!(Command::Get.opcode(), [0x00, 0x03]);
    assert_eq!(Command::Put.opcode(), [0x00, 0x04]);
}

#[test]
fn from_opcode_reads_the_four_commands() {
    assert_eq!(Command::from_opcode(&[0, 1]), Ok(Command::Start));
    assert_eq!(Command::from_opcode(&[0, 2]), Ok(Command::Train));
    assert_eq!(Command::from_opcode(&[0, 3]), Ok(Command::Get));
    assert_eq!(Command::from_opcode(&[0, 4]), Ok(Command::Put));
    assert_eq!(Command::from_opcode(&[0, 4, 9, 9]), Ok(Command::Put));
}

#[test]
fn from_opcode_refuses_what_is_no_opcode() {
    assert_eq!(Command::from_opcode(&[]), Err(WireError::Truncated));
    assert_eq!(Command::from_opcode(&[0]), Err(WireError::Truncated));
    assert_eq!(Command::from_opcode(&[0, 0]), Err(WireError::UnknownOpcode));
    assert_eq!(Command::from_opcode(&[0, 5]), Err(WireError::UnknownOpcode));
    assert_eq!(Command::from_opcode(&[1, 1]), Err(WireError::UnknownOpcode));
    assert_eq!(Command::from_opcode(&[0xFF, 0xFF]), Err(WireError::UnknownOpcode));
}

#[test]
fn requests_without_a_body_are_two_bytes() {
    assert_eq!(Request::Start.encode(), vec![0, 1]);
    assert_eq!(Request::Train.encode(), vec![0, 2]);
    assert_eq!(Request::Get.encode(), vec![0, 3]);
}

#[test]
fn put_carries_a_slot() {
    assert_eq!(Request::Put(None).encode(), vec![0, 4, 0]);
    assert_eq!(Request::Put(Some(vec![])).encode(), vec![0, 4, 1]);
    assert_eq!(Request::Put(Some(vec![7, 8, 9])).encode(), vec![0, 4, 1, 7, 8, 9]);
}

#[test]
fn replies_carry_the_score_in_big_endian() {
    assert_eq!(
        Reply::Trained { fitness: fitness(1.0) }.encode(),
        vec![0, 2, 0x3F, 0xF0, 0, 0, 0, 0, 0, 0]
    );
    assert_eq!(
        Reply::Started { fitness: fitness(-2.0), individual: Some(vec![5, 6]) }.encode(),
        vec![0, 1, 0xC0, 0, 0, 0, 0, 0, 0, 0, 1, 5, 6]
    );
    assert_eq!(
        Reply::Started { fitness: fitness(0.0), individual: None }.encode(),
        vec![0, 1, 0, 0, 0, 0, 0, 0, 0, 0, 0]
    );
}

#[test]
fn the_reply_to_get_is_the_opcode_and_a_slot() {
    assert_eq!(Reply::Current { individual: None }.encode(), vec![0, 3, 0]);
    assert_eq!(Reply::Current { individual: Some(vec![0xAA]) }.encode(), vec![0, 3, 1, 0xAA]);
}

#[test]
fn requests_round_trip() {
    let requests = vec![
        Request::Start,
        Request::Train,
        Request::Get,
        Request::Put(None),
        Request::Put(Some(vec![])),
        Request::Put(Some(vec![0, 1, 2, 255])),
    ];
    for request in requests {
        assert_eq!(Request::decode(&request.encode()), Ok(request));
    }
}

#[test]
fn replies_round_trip() {
    let replies = vec![
        Reply::Started { fitness: fitness(12.5), individual: Some(vec![1, 2, 3]) },
        Reply::Started { fitness: fitness(-0.0), individual: None },
        Reply::Started { fitness: fitness(f64::NAN), individual: Some(vec![]) },
        Reply::Trained { fitness: fitness(f64::INFINITY) },
        Reply::Trained { fitness: fitness(1e-300) },
        Reply::Current { individual: None },
        Reply::Current { individual: Some(vec![9; 40]) },
    ];
    for reply in replies {
        assert_eq!(Reply::decode(&reply.encode()), Ok(reply));
    }
}

#[test]
fn decoded_bytes_encode_to_themselves() {
    let frames: Vec<Vec<u8>> = vec![
        vec![0, 1, 1, 2, 3, 4, 5, 6, 7, 8, 1, 42],
        vec![0, 2, 8, 7, 6, 5, 4, 3, 2, 1],
        vec![0, 3, 0],
        vec![0, 3, 1, 0, 0],
    ];
    for frame in frames {
        assert_eq!(Reply::decode(&frame).unwrap().encode(), frame);
    }
    let frames: Vec<Vec<u8>> = vec![vec![0, 1], vec![0, 4, 0], vec![0, 4, 1, 3, 3]];
    for frame in frames {
        assert_eq!(Request::decode(&frame).unwrap().encode(), frame);
    }
}

#[test]
fn a_request_that_ends_early_is_truncated() {
    assert_eq!(Request::decode(&[]), Err(WireError::Truncated));
    assert_eq!(Request::decode(&[0]), Err(WireError::Truncated));
    assert_eq!(Request::decode(&[0, 4]), Err(WireError::Truncated));
}

#[test]
fn a_reply_that_ends_early_is_truncated() {
    assert_eq!(Reply::decode(&[0]), Err(WireError::Truncated));
    assert_eq!(Reply::decode(&[0, 1]), Err(WireError::Truncated));
    assert_eq!(Reply::decode(&[0, 2, 1, 2, 3, 4, 5, 6, 7]), Err(WireError::Truncated));
    assert_eq!(Reply::decode(&[0, 1, 1, 2, 3, 4, 5, 6, 7, 8]), Err(WireError::Truncated));
    assert_eq!(Reply::decode(&[0, 3]), Err(WireError::Truncated));
}

#[test]
fn an_unknown_opcode_is_refused() {
    assert_eq!(Request::decode(&[0, 9, 1]), Err(WireError::UnknownOpcode));
    assert_eq!(Request::decode(&[7, 1]), Err(WireError::UnknownOpcode));
    assert_eq!(Reply::decode(&[0, 0, 0, 0]), Err(WireError::UnknownOpcode));
}

#[test]
fn put_is_never_a_reply() {
    assert_eq!(Reply::decode(&[0, 4, 0]), Err(WireError::UnexpectedCommand));
    assert_eq!(Reply::decode(&[0, 4]), Err(WireError::UnexpectedCommand));
}

#[test]
fn a_slot_opens_with_zero_or_one() {
    assert_eq!(Request::decode(&[0, 4, 2]), Err(WireError::InvalidTag));
    assert_eq!(Request::decode(&[0, 4, 255, 1]), Err(WireError::InvalidTag));
    assert_eq!(Reply::decode(&[0, 3, 2, 0]), Err(WireError::InvalidTag));
    assert_eq!(
        Reply::decode(&[0, 1, 1, 2, 3, 4, 5, 6, 7, 8, 9]),
        Err(WireError::InvalidTag)
    );
}

#[test]
fn bytes_after_the_end_are_refused() {
    assert_eq!(Request::decode(&[0, 1, 0]), Err(WireError::TrailingBytes));
    assert_eq!(Request::decode(&[0, 2, 0]), Err(WireError::TrailingBytes));
    assert_eq!(Request::decode(&[0, 3, 1]), Err(WireError::TrailingBytes));
    assert_eq!(Request::decode(&[0, 4, 0, 0]), Err(WireError::TrailingBytes));
    assert_eq!(
        Reply::decode(&[0, 2, 1, 2, 3, 4, 5, 6, 7, 8, 9]),
        Err(WireError::TrailingBytes)
    );
    assert_eq!(Reply::decode(&[0, 3, 0, 1]), Err(WireError::TrailingBytes));
}

#[test]
fn a_slot_is_what_bincode_writes_for_an_option() {
    let held: Option<Vec<u64>> = Some(vec![3, 1, 4, 1, 5]);
    let whole = encode(&held, SizeLimit::Infinite).unwrap();
    let inner = encode(&held.clone().unwrap(), SizeLimit::Infinite).unwrap();
    let frame = Reply::Current { individual: Some(inner) }.encode();
    assert_eq!(&frame[..2], &[0, 3]);
    assert_eq!(&frame[2..], &whole[..]);

    let empty: Option<Vec<u64>> = None;
    let whole = encode(&empty, SizeLimit::Infinite).unwrap();
    let frame = Reply::Current { individual: None }.encode();
    assert_eq!(&frame[2..], &whole[..]);
}

#[test]
fn an_individual_survives_encoding_framing_and_decoding() {
    let individual: Vec<u64> = vec![10, 20, 30, u64::MAX];
    let payload = encode(&individual, SizeLimit::Infinite).unwrap();
    let frame = Reply::Started { fitness: fitness(0.75), individual: Some(payload) }.encode();
    match Reply::decode(&frame) {
        Ok(Reply::Started { fitness: reported, individual: Some(payload) }) => {
            assert_eq!(f64::from_bits(reported.to_bits()), 0.75);
            let back: Vec<u64> = decode(&payload).unwrap();
            assert_eq!(back, individual);
        }
        other => panic!("unexpected reply: {:?}", other),
    }
    let slot: Option<Vec<u64>> = decode(&frame[10..]).unwrap();
    assert_eq!(slot, Some(individual));
}

#[test]
fn only_put_sends_a_slot() {
    assert!(!Command::Start.request_has_slot());
    assert!(!Command::Train.request_has_slot());
    assert!(!Command::Get.request_has_slot());
    assert!(Command::Put.request_has_slot());
}

#[test]
fn the_replies_to_start_and_train_carry_a_score() {
    assert!(Command::Start.reply_has_score());
    assert!(Command::Train.reply_has_score());
    assert!(!Command::Get.reply_has_score());
    assert!(!Command::Put.reply_has_score());
}

#[test]
fn the_replies_to_start_and_get_end_with_a_slot() {
    assert!(Command::Start.reply_has_slot());
    assert!(!Command::Train.reply_has_slot());
    assert!(Command::Get.reply_has_slot());
    assert!(!Command::Put.reply_has_slot());
}

#[test]
fn the_reply_to_get_is_handed_on_as_a_put() {
    let reply = Reply::Current { individual: Some(vec![1, 2, 3]) };
    assert_eq!(reply.hand_on(), Ok(Request::Put(Some(vec![1, 2, 3]))));
    assert_eq!(Reply::Current { individual: None }.hand_on(), Ok(Request::Put(None)));
}

#[test]
fn no_other_reply_is_handed_on() {
    let trained = Reply::Trained { fitness: fitness(1.0) };
    assert_eq!(trained.hand_on(), Err(WireError::UnexpectedCommand));
    let started = Reply::Started { fitness: fitness(1.0), individual: Some(vec![1]) };
    assert_eq!(started.hand_on(), Err(WireError::UnexpectedCommand));
}
