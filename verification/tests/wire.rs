use litio::wire::{Color, Packet};
use serde::ser::{Serialize, Serializer};

/// The control message as an enum of four variants in serde's data model.
enum Mirror {
    Join((f32, f32, f32)),
    Joined(usize),
    GameStarted,
    Control,
}

impl Serialize for Mirror {
    fn serialize<S: Serializer>(&self, serializer: S) -> Result<S::Ok, S::Error> {
        match self {
            Mirror::Join(color) => serializer.serialize_newtype_variant("Packet", 0, "Join", color),
            Mirror::Joined(id) => serializer.serialize_newtype_variant("Packet", 1, "Joined", id),
            Mirror::GameStarted => serializer.serialize_unit_variant("Packet", 2, "GameStarted"),
            Mirror::Control => serializer.serialize_unit_variant("Packet", 3, "Control"),
        }
    }
}

fn color(r: f32, g: f32, b: f32) -> Color {
    Color { r: r.to_bits(), g: g.to_bits(), b: b.to_bits() }
}

#[test]
fn joined_is_tag_then_id() {
    assert_eq!(Packet::Joined(1).encode(), vec![1, 0, 0, 0, 1, 0, 0, 0, 0, 0, 0, 0]);
    assert_eq!(
        Packet::Joined(0x0102_0304).encode(),
        vec![1, 0, 0, 0, 4, 3, 2, 1, 0, 0, 0, 0]
    );
}

#[test]
fn unit_messages_are_a_bare_tag() {
    assert_eq!(Packet::GameStarted.encode(), vec![2, 0, 0, 0]);
    assert_eq!(Packet::Control.encode(), vec![3, 0, 0, 0]);
}

#[test]
fn join_carries_three_channels() {
    let bytes = Packet::Join(Color { r: 1, g: 0x100, b: 0xff00_0000 }).encode();
    assert_eq!(bytes, vec![0, 0, 0, 0, 1, 0, 0, 0, 0, 1, 0, 0, 0, 0, 0, 255]);
}

#[test]
fn encoding_matches_bincode_layout() {
    let join = Packet::Join(color(0.7, 0.85, 0.4)).encode();
    assert_eq!(join, bincode::serialize(&(0u32, (0.7f32, 0.85f32, 0.4f32))).unwrap());
    let joined = Packet::Joined(77).encode();
    assert_eq!(joined, bincode::serialize(&(1u32, 77u64)).unwrap());
    assert_eq!(Packet::GameStarted.encode(), bincode::serialize(&2u32).unwrap());
    assert_eq!(Packet::Control.encode(), bincode::serialize(&3u32).unwrap());
}

#[test]
fn decoding_matches_bincode_layout() {
    let bytes = bincode::serialize(&(1u32, 123_456_789u64)).unwrap();
    assert_eq!(Packet::decode(&bytes), Some(Packet::Joined(123_456_789)));
    let bytes = bincode::serialize(&(0u32, (1.0f32, -0.0f32, f32::INFINITY))).unwrap();
    assert_eq!(Packet::decode(&bytes), Some(Packet::Join(color(1.0, -0.0, f32::INFINITY))));
    let back: (u32, u64) = bincode::deserialize(&Packet::Joined(9).encode()).unwrap();
    assert_eq!(back, (1, 9));
}

#[test]
fn decode_inverts_encode() {
    let all = [
        Packet::Join(color(0.7, 1.0, 0.4)),
        Packet::Join(Color { r: u32::MAX, g: 0, b: 0x7fc0_0000 }),
        Packet::Joined(0),
        Packet::Joined(1),
        Packet::Joined(usize::MAX),
        Packet::GameStarted,
        Packet::Control,
    ];
    for packet in all {
        assert_eq!(Packet::decode(&packet.encode()), Some(packet));
    }
}

#[test]
fn trailing_bytes_are_ignored() {
    let mut bytes = Packet::Joined(5).encode();
    bytes.extend_from_slice(&[9, 9, 9]);
    assert_eq!(Packet::decode(&bytes), Some(Packet::Joined(5)));
    let mut bytes = Packet::GameStarted.encode();
    bytes.push(1);
    assert_eq!(Packet::decode(&bytes), Some(Packet::GameStarted));
}

#[test]
fn short_buffers_do_not_decode() {
    assert_eq!(Packet::decode(&[]), None);
    assert_eq!(Packet::decode(&[1, 0, 0]), None);
    let joined = Packet::Joined(5).encode();
    assert_eq!(Packet::decode(&joined[..11]), None);
    let join = Packet::Join(color(0.1, 0.2, 0.3)).encode();
    assert_eq!(Packet::decode(&join[..15]), None);
    assert_eq!(Packet::decode(&join[..4]), None);
}

#[test]
fn unknown_tags_do_not_decode() {
    assert_eq!(Packet::decode(&[4, 0, 0, 0]), None);
    assert_eq!(Packet::decode(&[0, 1, 0, 0, 0, 0, 0, 0, 0, 0, 0, 0, 0, 0, 0, 0]), None);
    assert_eq!(Packet::decode(&[255, 255, 255, 255]), None);
}

#[test]
fn decoded_message_spells_the_prefix() {
    let bytes = vec![1, 0, 0, 0, 7, 6, 5, 4, 3, 2, 1, 0, 42, 42];
    let packet = Packet::decode(&bytes).unwrap();
    assert_eq!(packet, Packet::Joined(0x0001_0203_0405_0607));
    assert_eq!(packet.encode(), bytes[..12].to_vec());
}

#[test]
fn encoding_is_what_bincode_writes_for_the_enum() {
    let channels = [0.0f32, -0.0, 0.4, 0.7, 1.0, f32::MAX, f32::MIN_POSITIVE, f32::INFINITY];
    for &r in &channels {
        for &g in &channels {
            let b = r * 0.5 + g;
            assert_eq!(
                Packet::Join(color(r, g, b)).encode(),
                bincode::serialize(&Mirror::Join((r, g, b))).unwrap()
            );
        }
    }
    let ids = [0usize, 1, 2, 255, 256, 65_535, 65_536, 1 << 24, u32::MAX as usize, usize::MAX];
    for &id in &ids {
        assert_eq!(
            Packet::Joined(id).encode(),
            bincode::serialize(&Mirror::Joined(id)).unwrap()
        );
    }
    assert_eq!(Packet::GameStarted.encode(), bincode::serialize(&Mirror::GameStarted).unwrap());
    assert_eq!(Packet::Control.encode(), bincode::serialize(&Mirror::Control).unwrap());
}

#[test]
fn truncation_fails_where_bincode_fails() {
    let joined = bincode::serialize(&Mirror::Joined(0x1122_3344)).unwrap();
    for len in 0..=joined.len() {
        let read: Result<(u32, u64), _> = bincode::deserialize(&joined[..len]);
        assert_eq!(Packet::decode(&joined[..len]).is_some(), read.is_ok());
    }
    let join = bincode::serialize(&Mirror::Join((0.1, 0.2, 0.3))).unwrap();
    for len in 0..=join.len() {
        let read: Result<(u32, (f32, f32, f32)), _> = bincode::deserialize(&join[..len]);
        assert_eq!(Packet::decode(&join[..len]).is_some(), read.is_ok());
    }
}
