use nexus_emotes::chat_compact::{MessageType, MessageUnion, Player, RawMessage, RawPlayer};
use nexus_emotes::chat_compact::{GuildFlags, SquadFlags, WhisperFlags};
use nexus_emotes::chat_events::{
    DecodeError, GloballyUniqueIdentifier, MessageSource, RawChatEvent, MSG_TYPE_EMOTE,
    MSG_TYPE_GUILD, MSG_TYPE_SQUAD_MESSAGE, MSG_TYPE_WHISPER,
};
use nexus_emotes::chat_message::{message_from_extras, ExtrasChannel, ExtrasMessageInfo};
use nexus_emotes::timestamp::{SystemTimeParts, Timestamp};

fn parts(year: u16, month: u16, day: u16) -> SystemTimeParts {
    SystemTimeParts {
        year,
        month,
        day,
        hour: 12,
        minute: 30,
        second: 15,
        millisecond: 250,
    }
}

fn now() -> Timestamp {
    Timestamp::from_parts(parts(2024, 6, 1)).unwrap()
}

fn raw_event(msg_type: u32) -> RawChatEvent {
    RawChatEvent {
        msg_type,
        timestamp: parts(2024, 6, 1),
        account: GloballyUniqueIdentifier::default(),
        character_name: None,
        account_name: None,
        content: None,
        guild_index: 0,
        map_id: 0,
        squad_message: None,
        emote_character_name: None,
        emote_action: 0,
        emote_custom_action: None,
    }
}

#[test]
fn null_player_strings_decode_to_absent_not_empty() {
    let p = Player::decode(RawPlayer {
        character: None,
        account: None,
    })
    .unwrap();
    assert!(p.character.is_none());
    assert!(p.account.is_none());
    // A present empty string stays distinguishable from an absent one.
    let q = Player::decode(RawPlayer {
        character: Some(Vec::new()),
        account: None,
    })
    .unwrap();
    assert_eq!(q.character, Some(String::new()));
    assert!(q.account.is_none());
}

#[test]
fn invalid_utf8_fails_the_whole_player_decode() {
    let r = Player::decode(RawPlayer {
        character: Some(vec![0xff, 0xfe]),
        account: None,
    });
    assert_eq!(r, Err(DecodeError::InvalidUtf8));
}

#[test]
fn unknown_channel_bytes_decode_to_the_error_channel() {
    for v in [0u8, 8, 42, 255] {
        assert_eq!(MessageType::from(v), MessageType::Error);
    }
    assert_eq!(MessageType::from(1), MessageType::MapChannel);
    assert_eq!(MessageType::from(7), MessageType::Local);
}

#[test]
fn flag_bytes_decode_with_default_arms() {
    assert_eq!(GuildFlags::from(1), GuildFlags::IsActive);
    assert_eq!(GuildFlags::from(9), GuildFlags::NoFlags);
    assert_eq!(WhisperFlags::from(1), WhisperFlags::SourceIsInterlocutor);
    assert_eq!(WhisperFlags::from(3), WhisperFlags::NoFlags);
    assert_eq!(SquadFlags::from(4), SquadFlags::SourceIsLeutanant);
    assert_eq!(SquadFlags::from(3), SquadFlags::NoFlags);
}

#[test]
fn compact_event_with_unknown_type_decodes_to_error_source() {
    let mut raw = RawMessage::default();
    raw.msg_type = 200;
    raw.content = Some(b"hello".to_vec());
    raw.timestamp = parts(2024, 2, 29);
    let m = nexus_emotes::chat_compact::Message::decode(raw, now()).unwrap();
    assert!(matches!(
        m.source,
        nexus_emotes::chat_compact::MessageSource::Error
    ));
    assert_eq!(m.content.as_deref(), Some("hello"));
    assert_eq!(m.timestamp.year, 2024);
    assert_eq!(m.timestamp.month, 2);
    assert_eq!(m.timestamp.day, 29);
}

#[test]
fn compact_event_bad_timestamp_falls_back_to_now() {
    let mut raw = RawMessage::default();
    raw.msg_type = 2;
    raw.source = MessageUnion {
        player: RawPlayer {
            character: Some(b"Rytlock".to_vec()),
            account: Some(b"account.1234".to_vec()),
        },
        guild_index: 0,
        guild_flags: 0,
        team_map_id: 0,
        whisper_flags: 0,
        squad_flags: 0,
    };
    raw.timestamp = parts(2024, 2, 30); // no such day
    let m = nexus_emotes::chat_compact::Message::decode(raw, now()).unwrap();
    assert_eq!(m.timestamp, now());
    match m.source {
        nexus_emotes::chat_compact::MessageSource::Party(p) => {
            assert_eq!(p.character.as_deref(), Some("Rytlock"));
            assert_eq!(p.account.as_deref(), Some("account.1234"));
        }
        _ => panic!("expected a party source"),
    }
}

#[test]
fn extended_event_error_and_unknown_types_fail_without_panicking() {
    let r = MessageSource::from_raw(raw_event(0));
    assert_eq!(r.err(), Some(DecodeError::ErrorType));
    let r = MessageSource::from_raw(raw_event(99));
    assert_eq!(r.err(), Some(DecodeError::UnknownType(99)));
}

#[test]
fn extended_guild_event_decodes_the_common_prefix_and_trailing_index() {
    let mut raw = raw_event(MSG_TYPE_GUILD);
    raw.character_name = Some(b"Eir".to_vec());
    raw.account_name = None;
    raw.content = Some(b"gg PogChamp".to_vec());
    raw.guild_index = 3;
    match MessageSource::from_raw(raw).unwrap() {
        MessageSource::Guild {
            message,
            guild_index,
        } => {
            assert_eq!(message.character_name.as_deref(), Some("Eir"));
            // an absent account name stays absent, never an empty string
            assert!(message.account_name.is_none());
            assert_eq!(message.content, "gg PogChamp");
            assert_eq!(guild_index, 3);
        }
        _ => panic!("expected a guild source"),
    }
}

#[test]
fn extended_squad_broadcast_reads_its_own_slot() {
    let mut raw = raw_event(MSG_TYPE_SQUAD_MESSAGE);
    raw.squad_message = Some(b"stack on me".to_vec());
    match MessageSource::from_raw(raw).unwrap() {
        MessageSource::SquadMessage(c) => assert_eq!(c, "stack on me"),
        _ => panic!("expected a squad message"),
    }
}

#[test]
fn extended_emote_event_takes_its_own_layout_path() {
    let mut raw = raw_event(MSG_TYPE_EMOTE);
    raw.emote_character_name = Some(b"Eir".to_vec());
    raw.emote_action = 2;
    match MessageSource::from_raw(raw).unwrap() {
        MessageSource::Emote {
            character_name,
            action_taken,
        } => {
            assert_eq!(character_name.as_deref(), Some("Eir"));
            assert_eq!(action_taken, nexus_emotes::chat_events::GameEmote::Dance);
        }
        _ => panic!("expected an emote source"),
    }
    let mut raw = raw_event(MSG_TYPE_EMOTE);
    raw.emote_action = 77;
    match MessageSource::from_raw(raw).unwrap() {
        MessageSource::Emote { action_taken, .. } => {
            assert_eq!(action_taken, nexus_emotes::chat_events::GameEmote::Other(77));
        }
        _ => panic!("expected an emote source"),
    }
}

#[test]
fn extended_invalid_utf8_fails_the_whole_event() {
    let mut raw = raw_event(MSG_TYPE_WHISPER);
    raw.content = Some(vec![0xc0, 0x20]);
    assert_eq!(
        nexus_emotes::chat_events::Message::decode(raw, now()).err(),
        Some(DecodeError::InvalidUtf8)
    );
}

#[test]
fn extras_party_and_squad_convert_and_other_kinds_do_not() {
    let info = ExtrasMessageInfo {
        channel_type: ExtrasChannel::Party,
        character_name: "Eir".to_string(),
        account_name: "account.1234".to_string(),
        text: "hello there".to_string(),
        timestamp: parts(2024, 6, 1),
    };
    let m = message_from_extras(info.clone(), now()).unwrap();
    assert_eq!(m.content().map(|s| s.as_str()), Some("hello there"));
    let mut squad = info.clone();
    squad.channel_type = ExtrasChannel::Squad;
    assert!(message_from_extras(squad, now()).is_some());
    let mut reserved = info.clone();
    reserved.channel_type = ExtrasChannel::Reserved;
    assert!(message_from_extras(reserved, now()).is_none());
    let mut invalid = info;
    invalid.channel_type = ExtrasChannel::Invalid;
    assert!(message_from_extras(invalid, now()).is_none());
}

#[test]
fn timestamp_validation_knows_the_calendar() {
    assert!(Timestamp::from_parts(parts(2024, 2, 29)).is_some()); // leap year
    assert!(Timestamp::from_parts(parts(2023, 2, 29)).is_none());
    assert!(Timestamp::from_parts(parts(2000, 2, 29)).is_some()); // divisible by 400
    assert!(Timestamp::from_parts(parts(1900, 2, 29)).is_none()); // century, not by 400
    assert!(Timestamp::from_parts(parts(2024, 4, 31)).is_none());
    assert!(Timestamp::from_parts(parts(2024, 0, 1)).is_none());
    assert!(Timestamp::from_parts(parts(2024, 13, 1)).is_none());
    let mut p = parts(2024, 6, 1);
    p.hour = 24;
    assert!(Timestamp::from_parts(p).is_none());
    let mut p = parts(2024, 6, 1);
    p.millisecond = 1000;
    assert!(Timestamp::from_parts(p).is_none());
}

#[test]
fn compact_team_source_keeps_its_raw_player_and_map_id() {
    let mut raw = RawMessage::default();
    raw.msg_type = 4;
    raw.timestamp = parts(2024, 6, 1);
    raw.source = MessageUnion {
        player: RawPlayer {
            character: Some(b"Eir".to_vec()),
            account: None,
        },
        guild_index: 0,
        guild_flags: 0,
        team_map_id: 1154,
        whisper_flags: 0,
        squad_flags: 0,
    };
    let m = nexus_emotes::chat_compact::Message::decode(raw, now()).unwrap();
    match m.source {
        nexus_emotes::chat_compact::MessageSource::Team(t) => {
            assert_eq!(t.map_id, 1154);
            assert_eq!(t.source.character.as_deref(), Some(b"Eir".as_slice()));
            assert!(t.source.account.is_none());
        }
        _ => panic!("expected a team source"),
    }
}

#[test]
fn extended_null_character_name_stays_absent() {
    let mut raw = raw_event(MSG_TYPE_GUILD);
    raw.content = Some(b"hi".to_vec());
    match MessageSource::from_raw(raw).unwrap() {
        MessageSource::Guild { message, .. } => {
            assert!(message.character_name.is_none());
            // distinguishable from a present empty name
        }
        _ => panic!("expected a guild source"),
    }
    let mut raw = raw_event(MSG_TYPE_GUILD);
    raw.character_name = Some(Vec::new());
    match MessageSource::from_raw(raw).unwrap() {
        MessageSource::Guild { message, .. } => {
            assert_eq!(message.character_name, Some(String::new()));
        }
        _ => panic!("expected a guild source"),
    }
}

#[test]
fn channel_bytes_round_trip_through_their_wire_value() {
    for v in 0u8..=7 {
        let t = MessageType::from(v);
        assert_eq!(MessageType::from(u8::from(t)), t);
    }
    assert_eq!(u8::from(MessageType::Whisper), 6);
    assert_eq!(u8::from(MessageType::Error), 0);
    // an unknown byte encodes back as the error channel's byte
    assert_eq!(u8::from(MessageType::from(200)), 0);
}
