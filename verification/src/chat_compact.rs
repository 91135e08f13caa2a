//! Decoder for the compact chat-event wire layout: a channel-type byte, a
//! nullable content string, a file-time timestamp (already split into
//! calendar fields by the host's conversion), and a union of per-channel
//! source shapes that all begin with a pair of nullable player strings.
//! Unknown channel-type bytes decode to the error channel; they never panic.
//! Absent strings stay absent — they are never conflated with empty ones.

use crate::chat_events::{opt_bytes, utf8_opt_chars, utf8_opt_ok, DecodeError};
use crate::text::bytes_to_string;
use crate::timestamp::{SystemTimeParts, Timestamp};
use vstd::prelude::*;

verus! {

/// The channel a compact event was posted in.
#[derive(Copy, Clone, PartialEq, Eq, Structural, Debug)]
pub enum MessageType {
    Error,
    MapChannel,
    Party,
    Squad,
    Team,
    Guild,
    Whisper,
    Local,
}

/// The channel selected by a wire byte: the known values one-to-one, every
/// other byte the error channel.
pub open spec fn message_type_of(v: u8) -> MessageType {
    if v == 1 {
        MessageType::MapChannel
    } else if v == 2 {
        MessageType::Party
    } else if v == 3 {
        MessageType::Squad
    } else if v == 4 {
        MessageType::Team
    } else if v == 5 {
        MessageType::Guild
    } else if v == 6 {
        MessageType::Whisper
    } else if v == 7 {
        MessageType::Local
    } else {
        MessageType::Error
    }
}

impl From<u8> for MessageType {
    /// Decodes the channel-type byte; an unknown value is the error channel,
    /// never a panic.
    fn from(v: u8) -> (r: MessageType)
        ensures
            r == message_type_of(v),
    {
        match v {
            1 => MessageType::MapChannel,
            2 => MessageType::Party,
            3 => MessageType::Squad,
            4 => MessageType::Team,
            5 => MessageType::Guild,
            6 => MessageType::Whisper,
            7 => MessageType::Local,
            _ => MessageType::Error,
        }
    }
}

impl vstd::std_specs::convert::FromSpecImpl<u8> for MessageType {
    open spec fn obeys_from_spec() -> bool {
        true
    }

    open spec fn from_spec(v: u8) -> MessageType {
        message_type_of(v)
    }
}

/// The wire byte of a channel.
pub open spec fn message_type_byte(m: MessageType) -> u8 {
    match m {
        MessageType::Error => 0,
        MessageType::MapChannel => 1,
        MessageType::Party => 2,
        MessageType::Squad => 3,
        MessageType::Team => 4,
        MessageType::Guild => 5,
        MessageType::Whisper => 6,
        MessageType::Local => 7,
    }
}

impl From<MessageType> for u8 {
    /// Encodes the channel back to its wire byte: decoding that byte again
    /// yields the same channel.
    fn from(m: MessageType) -> (r: u8)
        ensures
            r == message_type_byte(m),
            message_type_of(r) == m,
    {
        match m {
            MessageType::Error => 0,
            MessageType::MapChannel => 1,
            MessageType::Party => 2,
            MessageType::Squad => 3,
            MessageType::Team => 4,
            MessageType::Guild => 5,
            MessageType::Whisper => 6,
            MessageType::Local => 7,
        }
    }
}

impl vstd::std_specs::convert::FromSpecImpl<MessageType> for u8 {
    open spec fn obeys_from_spec() -> bool {
        true
    }

    open spec fn from_spec(m: MessageType) -> u8 {
        message_type_byte(m)
    }
}

/// The raw source-player pair of the compact layout: two nullable strings.
pub struct RawPlayer {
    pub character: Option<Vec<u8>>,
    pub account: Option<Vec<u8>>,
}

impl Default for RawPlayer {
    /// Both pointers null.
    fn default() -> (r: RawPlayer)
        ensures
            r.character is None,
            r.account is None,
    {
        RawPlayer { character: None, account: None }
    }
}

/// A decoded player identity. A name the wire did not carry stays `None`; it
/// is never turned into an empty string.
#[derive(Debug, Clone, PartialEq, Eq)]
pub struct Player {
    pub character: Option<String>,
    pub account: Option<String>,
}

impl Default for Player {
    fn default() -> (r: Player)
        ensures
            r.character is None,
            r.account is None,
    {
        Player { character: None, account: None }
    }
}

/// Whether both strings of a raw player decode.
pub open spec fn player_ok(p: RawPlayer) -> bool {
    utf8_opt_ok(opt_bytes(p.character)) && utf8_opt_ok(opt_bytes(p.account))
}

/// Whether `pl` is the decoding of `p`: absence preserved, presence decoded.
pub open spec fn decodes_player(pl: Player, p: RawPlayer) -> bool {
    &&& pl.character.deep_view() == utf8_opt_chars(opt_bytes(p.character))
    &&& pl.account.deep_view() == utf8_opt_chars(opt_bytes(p.account))
}

impl Player {
    /// Decodes a raw player pair. A null string decodes to an absent field —
    /// never to an empty string — and a present string must be valid UTF-8,
    /// else the whole decode fails.
    pub fn decode(p: RawPlayer) -> (r: Result<Player, DecodeError>)
        ensures
            r is Ok <==> player_ok(p),
            r matches Ok(pl) ==> decodes_player(pl, p),
            r is Err ==> r == Err::<Player, DecodeError>(DecodeError::InvalidUtf8),
    {
        let character = match p.character {
            None => None,
            Some(bytes) => match bytes_to_string(bytes) {
                Some(s) => Some(s),
                None => {
                    return Err(DecodeError::InvalidUtf8);
                },
            },
        };
        let account = match p.account {
            None => None,
            Some(bytes) => match bytes_to_string(bytes) {
                Some(s) => Some(s),
                None => {
                    return Err(DecodeError::InvalidUtf8);
                },
            },
        };
        Ok(Player { character, account })
    }
}

/// Guild-channel metadata flags.
#[derive(Copy, Clone, PartialEq, Eq, Structural, Debug)]
pub enum GuildFlags {
    NoFlags,
    IsActive,
}

pub open spec fn guild_flags_of(v: u8) -> GuildFlags {
    if v == 1 {
        GuildFlags::IsActive
    } else {
        GuildFlags::NoFlags
    }
}

impl From<u8> for GuildFlags {
    fn from(v: u8) -> (r: GuildFlags)
        ensures
            r == guild_flags_of(v),
    {
        match v {
            1 => GuildFlags::IsActive,
            _ => GuildFlags::NoFlags,
        }
    }
}

impl vstd::std_specs::convert::FromSpecImpl<u8> for GuildFlags {
    open spec fn obeys_from_spec() -> bool {
        true
    }

    open spec fn from_spec(v: u8) -> GuildFlags {
        guild_flags_of(v)
    }
}

/// The guild-channel source shape: the raw player pair plus a guild index.
pub struct GuildSource {
    pub source: RawPlayer,
    pub index: u8,
    pub flags: GuildFlags,
}

impl Default for GuildSource {
    fn default() -> (r: GuildSource)
        ensures
            r.source.character is None && r.source.account is None,
            r.index == 0,
            r.flags == GuildFlags::NoFlags,
    {
        GuildSource { source: RawPlayer::default(), index: 0, flags: GuildFlags::NoFlags }
    }
}

/// Whisper-channel metadata flags.
#[derive(Copy, Clone, PartialEq, Eq, Structural, Debug)]
pub enum WhisperFlags {
    NoFlags,
    SourceIsInterlocutor,
}

pub open spec fn whisper_flags_of(v: u8) -> WhisperFlags {
    if v == 1 {
        WhisperFlags::SourceIsInterlocutor
    } else {
        WhisperFlags::NoFlags
    }
}

impl From<u8> for WhisperFlags {
    fn from(v: u8) -> (r: WhisperFlags)
        ensures
            r == whisper_flags_of(v),
    {
        match v {
            1 => WhisperFlags::SourceIsInterlocutor,
            _ => WhisperFlags::NoFlags,
        }
    }
}

impl vstd::std_specs::convert::FromSpecImpl<u8> for WhisperFlags {
    open spec fn obeys_from_spec() -> bool {
        true
    }

    open spec fn from_spec(v: u8) -> WhisperFlags {
        whisper_flags_of(v)
    }
}

/// The whisper-channel source shape.
pub struct WhisperSource {
    pub interlocutor: RawPlayer,
    pub flags: WhisperFlags,
}

impl Default for WhisperSource {
    fn default() -> (r: WhisperSource)
        ensures
            r.interlocutor.character is None && r.interlocutor.account is None,
            r.flags == WhisperFlags::NoFlags,
    {
        WhisperSource { interlocutor: RawPlayer::default(), flags: WhisperFlags::NoFlags }
    }
}

/// The team-channel source shape: the raw player pair plus a map id.
pub struct TeamSource {
    pub source: RawPlayer,
    pub map_id: u32,
}

impl Default for TeamSource {
    fn default() -> (r: TeamSource)
        ensures
            r.source.character is None && r.source.account is None,
            r.map_id == 0,
    {
        TeamSource { source: RawPlayer::default(), map_id: 0 }
    }
}

/// Squad-channel metadata flags.
#[derive(Copy, Clone, PartialEq, Eq, Structural, Debug, Default)]
pub enum SquadFlags {
    #[default]
    NoFlags,
    IsBroadcast,
    SourceIsCommander,
    SourceIsLeutanant,
}

pub open spec fn squad_flags_of(v: u8) -> SquadFlags {
    if v == 1 {
        SquadFlags::IsBroadcast
    } else if v == 2 {
        SquadFlags::SourceIsCommander
    } else if v == 4 {
        SquadFlags::SourceIsLeutanant
    } else {
        SquadFlags::NoFlags
    }
}

impl From<u8> for SquadFlags {
    fn from(v: u8) -> (r: SquadFlags)
        ensures
            r == squad_flags_of(v),
    {
        match v {
            1 => SquadFlags::IsBroadcast,
            2 => SquadFlags::SourceIsCommander,
            4 => SquadFlags::SourceIsLeutanant,
            _ => SquadFlags::NoFlags,
        }
    }
}

impl vstd::std_specs::convert::FromSpecImpl<u8> for SquadFlags {
    open spec fn obeys_from_spec() -> bool {
        true
    }

    open spec fn from_spec(v: u8) -> SquadFlags {
        squad_flags_of(v)
    }
}

/// The squad-channel source shape, still undecoded.
pub struct RawSquadSource {
    pub source: RawPlayer,
    pub flags: SquadFlags,
}

impl Default for RawSquadSource {
    fn default() -> (r: RawSquadSource)
        ensures
            r.source.character is None && r.source.account is None,
            r.flags == SquadFlags::NoFlags,
    {
        RawSquadSource { source: RawPlayer::default(), flags: SquadFlags::NoFlags }
    }
}

/// The squad-channel source with its player decoded.
#[derive(Debug, Clone)]
pub struct SquadSource {
    pub source: Player,
    pub flags: SquadFlags,
}

/// The safe image of the compact layout's source union: the player prefix
/// shared by every shape, plus each shape's trailing fields as plain values.
/// Which of them are meaningful depends on the channel-type byte.
pub struct MessageUnion {
    /// The shared nullable player pair.
    pub player: RawPlayer,
    /// Trailing fields of the guild shape.
    pub guild_index: u8,
    pub guild_flags: u8,
    /// Trailing field of the team shape.
    pub team_map_id: u32,
    /// Trailing field of the whisper shape.
    pub whisper_flags: u8,
    /// Trailing field of the squad shape.
    pub squad_flags: u8,
}

impl Default for MessageUnion {
    /// The zero-initialized union image.
    fn default() -> (r: MessageUnion)
        ensures
            r.player.character is None && r.player.account is None,
            r.guild_index == 0 && r.guild_flags == 0,
            r.team_map_id == 0,
            r.whisper_flags == 0,
            r.squad_flags == 0,
    {
        MessageUnion {
            player: RawPlayer::default(),
            guild_index: 0,
            guild_flags: 0,
            team_map_id: 0,
            whisper_flags: 0,
            squad_flags: 0,
        }
    }
}

/// The decoded source of a compact event.
pub enum MessageSource {
    MapChannel(Player),
    Party(Player),
    Player(Player),
    Local(Player),
    Guild(GuildSource),
    Team(TeamSource),
    Whisper(WhisperSource),
    Squad(SquadSource),
    Error,
}

/// Whether decoding the union succeeds for the given channel: only the
/// channels that decode the player pair can fail, and only on invalid UTF-8.
pub open spec fn union_decode_ok(source: MessageUnion, t: MessageType) -> bool {
    match t {
        MessageType::MapChannel => player_ok(source.player),
        MessageType::Party => player_ok(source.player),
        MessageType::Local => player_ok(source.player),
        MessageType::Squad => player_ok(source.player),
        _ => true,
    }
}

/// Whether `m` is the decoding of the union for the given channel: the
/// matching variant, carrying the selected shape's fields.
pub open spec fn union_decodes(source: MessageUnion, t: MessageType, m: MessageSource) -> bool {
    match t {
        MessageType::MapChannel => m matches MessageSource::MapChannel(p) && decodes_player(
            p,
            source.player,
        ),
        MessageType::Party => m matches MessageSource::Party(p) && decodes_player(p, source.player),
        MessageType::Local => m matches MessageSource::Local(p) && decodes_player(p, source.player),
        MessageType::Squad => m matches MessageSource::Squad(s) && decodes_player(
            s.source,
            source.player,
        ) && s.flags == squad_flags_of(source.squad_flags),
        MessageType::Team => m matches MessageSource::Team(t) && t.source == source.player
            && t.map_id == source.team_map_id,
        MessageType::Guild => m matches MessageSource::Guild(g) && g.source == source.player
            && g.index == source.guild_index && g.flags == guild_flags_of(source.guild_flags),
        MessageType::Whisper => m matches MessageSource::Whisper(w) && w.interlocutor
            == source.player && w.flags == whisper_flags_of(source.whisper_flags),
        MessageType::Error => m is Error,
    }
}

impl MessageSource {
    /// Decodes the source union for the channel `t` selected. Channels whose
    /// shape names players decode them (and can fail on invalid UTF-8); the
    /// guild, team and whisper shapes keep their raw player pair, as the
    /// wire handed it over; the error channel decodes to the error source.
    pub fn from_raw(source: MessageUnion, t: MessageType) -> (r: Result<
        MessageSource,
        DecodeError,
    >)
        ensures
            r is Ok <==> union_decode_ok(source, t),
            r matches Ok(m) ==> union_decodes(source, t, m),
            r is Err ==> r == Err::<MessageSource, DecodeError>(DecodeError::InvalidUtf8),
    {
        match t {
            MessageType::MapChannel => Ok(MessageSource::MapChannel(Player::decode(source.player)?)),
            MessageType::Party => Ok(MessageSource::Party(Player::decode(source.player)?)),
            MessageType::Squad => {
                let player = Player::decode(source.player)?;
                Ok(
                    MessageSource::Squad(
                        SquadSource { source: player, flags: SquadFlags::from(source.squad_flags) },
                    ),
                )
            },
            MessageType::Team => Ok(
                MessageSource::Team(
                    TeamSource { source: source.player, map_id: source.team_map_id },
                ),
            ),
            MessageType::Guild => Ok(
                MessageSource::Guild(
                    GuildSource {
                        source: source.player,
                        index: source.guild_index,
                        flags: GuildFlags::from(source.guild_flags),
                    },
                ),
            ),
            MessageType::Whisper => Ok(
                MessageSource::Whisper(
                    WhisperSource {
                        interlocutor: source.player,
                        flags: WhisperFlags::from(source.whisper_flags),
                    },
                ),
            ),
            MessageType::Local => Ok(MessageSource::Local(Player::decode(source.player)?)),
            MessageType::Error => Ok(MessageSource::Error),
        }
    }
}

/// The safe image of one raw compact event.
pub struct RawMessage {
    /// The nullable content string.
    pub content: Option<Vec<u8>>,
    /// The file-time timestamp, already split into calendar fields by the
    /// host's native conversion.
    pub timestamp: SystemTimeParts,
    /// The channel-type byte, not yet decoded.
    pub msg_type: u8,
    /// The source union image.
    pub source: MessageUnion,
}

impl Default for RawMessage {
    /// The zero-initialized event image.
    fn default() -> (r: RawMessage)
        ensures
            r.content is None,
            r.timestamp == (SystemTimeParts {
                year: 0,
                month: 0,
                day: 0,
                hour: 0,
                minute: 0,
                second: 0,
                millisecond: 0,
            }),
            r.msg_type == 0,
            r.source.player.character is None && r.source.player.account is None,
            r.source.guild_index == 0 && r.source.guild_flags == 0,
            r.source.team_map_id == 0 && r.source.whisper_flags == 0 && r.source.squad_flags == 0,
    {
        RawMessage {
            content: None,
            timestamp: SystemTimeParts {
                year: 0,
                month: 0,
                day: 0,
                hour: 0,
                minute: 0,
                second: 0,
                millisecond: 0,
            },
            msg_type: 0,
            source: MessageUnion::default(),
        }
    }
}

/// One decoded compact event.
pub struct Message {
    pub content: Option<String>,
    pub timestamp: Timestamp,
    pub source: MessageSource,
}

impl Message {
    /// Decodes a whole compact event. Any invalid UTF-8 in the content or in
    /// a decoded player string fails the event; an unknown channel-type byte
    /// decodes to the error source; a timestamp whose fields do not name a
    /// real calendar instant falls back to `now`, the caller's current time.
    pub fn decode(raw: RawMessage, now: Timestamp) -> (r: Result<Message, DecodeError>)
        requires
            now.well_formed(),
        ensures
            r is Ok <==> utf8_opt_ok(opt_bytes(raw.content)) && union_decode_ok(
                raw.source,
                message_type_of(raw.msg_type),
            ),
            r matches Ok(m) ==> m.content.deep_view() == utf8_opt_chars(opt_bytes(raw.content)),
            r matches Ok(m) ==> union_decodes(raw.source, message_type_of(raw.msg_type), m.source),
            r matches Ok(m) ==> m.timestamp.well_formed(),
            r matches Ok(m) ==> if crate::timestamp::parts_valid(raw.timestamp) {
                m.timestamp.matches_parts(raw.timestamp)
            } else {
                m.timestamp == now
            },
            r is Err ==> r == Err::<Message, DecodeError>(DecodeError::InvalidUtf8),
    {
        let content = match raw.content {
            None => None,
            Some(bytes) => match bytes_to_string(bytes) {
                Some(s) => Some(s),
                None => {
                    return Err(DecodeError::InvalidUtf8);
                },
            },
        };
        let timestamp = match Timestamp::from_parts(raw.timestamp) {
            Some(t) => t,
            None => now,
        };
        let source = MessageSource::from_raw(raw.source, MessageType::from(raw.msg_type))?;
        Ok(Message { content, timestamp, source })
    }
}

} // verus!
