use midi_orchestra::client::{client_step, ClientAction};
use midi_orchestra::convert_duration::Duration;
use midi_orchestra::packet::{payload_len, DecodeError, Packet};

#[test]
fn client_info_is_one_tag_byte() {
    assert_eq!(Packet::ClientInfo.encode(), vec![0]);
    assert_eq!(Packet::decode(&[0]), Ok((Packet::ClientInfo, 1)));
}

#[test]
fn play_note_layout_is_tag_then_little_endian_fields() {
    let p = Packet::PlayNote { duration: 0x0102030405060708, frequency_bits: 0x0A0B0C0D, volume_bits: 0x11223344 };
    assert_eq!(
        p.encode(),
        vec![1, 8, 7, 6, 5, 4, 3, 2, 1, 0x0D, 0x0C, 0x0B, 0x0A, 0x44, 0x33, 0x22, 0x11]
    );
}

#[test]
fn terminate_after_layout() {
    assert_eq!(Packet::TerminateAfter(5).encode(), vec![2, 5, 0, 0, 0, 0, 0, 0, 0]);
}

#[test]
fn play_note_round_trips_bit_for_bit() {
    for (d, f, v) in [(250_000_000u64, 440.0f32, 0.5f32), (0, 27.5, 0.0), (u64::MAX, 4186.009, 1.0)] {
        let p = Packet::PlayNote { duration: d, frequency_bits: f.to_bits(), volume_bits: v.to_bits() };
        let mut bytes = p.encode();
        bytes.extend_from_slice(&[2, 9, 9]);
        let (q, n) = Packet::decode(&bytes).unwrap();
        assert_eq!(n, 17);
        assert_eq!(q, p);
        match q {
            Packet::PlayNote { duration, frequency_bits, volume_bits } => {
                assert_eq!(duration, d);
                assert_eq!(f32::from_bits(frequency_bits), f);
                assert_eq!(f32::from_bits(volume_bits), v);
            },
            _ => panic!("expected a note"),
        }
    }
}

#[test]
fn decoding_errors() {
    assert_eq!(Packet::decode(&[]), Err(DecodeError::Incomplete));
    assert_eq!(Packet::decode(&[1, 0, 0]), Err(DecodeError::Incomplete));
    assert_eq!(Packet::decode(&[2, 1, 2, 3, 4, 5, 6, 7]), Err(DecodeError::Incomplete));
    assert_eq!(Packet::decode(&[3]), Err(DecodeError::UnknownTag(3)));
    assert_eq!(Packet::decode(&[2, 1, 0, 0, 0, 0, 0, 0, 0, 42]), Ok((Packet::TerminateAfter(1), 9)));
}

#[test]
fn payload_lengths() {
    assert_eq!(payload_len(0), Some(0));
    assert_eq!(payload_len(1), Some(16));
    assert_eq!(payload_len(2), Some(8));
    assert_eq!(payload_len(7), None);
}

#[test]
fn only_client_info_is_a_client_message() {
    assert!(Packet::ClientInfo.is_client_message());
    assert!(!Packet::TerminateAfter(0).is_client_message());
    assert!(!Packet::PlayNote { duration: 1, frequency_bits: 0, volume_bits: 0 }.is_client_message());
}

#[test]
fn client_plays_notes_and_sleeps_exactly_the_terminate_delay() {
    let p = Packet::PlayNote { duration: 1_500_000_000, frequency_bits: 440.0f32.to_bits(), volume_bits: 0.25f32.to_bits() };
    assert_eq!(
        client_step(&p),
        ClientAction::Play {
            frequency_bits: 440.0f32.to_bits(),
            duration: Duration { secs: 1, nanos: 500_000_000 },
            volume_bits: 0.25f32.to_bits(),
        }
    );
    assert_eq!(
        client_step(&Packet::TerminateAfter(2_000_000_123)),
        ClientAction::TerminateAfter(Duration { secs: 2, nanos: 123 })
    );
    assert_eq!(client_step(&Packet::TerminateAfter(0)), ClientAction::TerminateAfter(Duration::zero()));
    assert_eq!(client_step(&Packet::ClientInfo), ClientAction::ProtocolViolation);
}
