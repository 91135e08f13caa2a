//! Decoder for the extended chat-event wire layout: a tagged union whose
//! channel-type value selects one of about a dozen payload shapes. Most
//! shapes share a common prefix (account identifier, two nullable strings,
//! content string) plus a shape-specific trailing field; the emote shapes use
//! a layout of their own and are decoded by their own path, never through the
//! common prefix. Unknown or error discriminants fail the decode of the whole
//! event; they never panic.

use crate::text::bytes_to_string;
use crate::timestamp::{SystemTimeParts, Timestamp};
use vstd::prelude::*;
use vstd::utf8::{decode_utf8, valid_utf8};

verus! {

// The channel-type values of the extended wire layout, in the order the
// foreign header declares them.
pub const MSG_TYPE_ERROR: u32 = 0;

pub const MSG_TYPE_GUILD: u32 = 1;

pub const MSG_TYPE_GUILD_MOTD: u32 = 2;

pub const MSG_TYPE_LOCAL: u32 = 3;

pub const MSG_TYPE_MAP: u32 = 4;

pub const MSG_TYPE_PARTY: u32 = 5;

pub const MSG_TYPE_SQUAD: u32 = 6;

pub const MSG_TYPE_SQUAD_MESSAGE: u32 = 7;

pub const MSG_TYPE_SQUAD_BROADCAST: u32 = 8;

pub const MSG_TYPE_TEAM_PVP: u32 = 9;

pub const MSG_TYPE_TEAM_WVW: u32 = 10;

pub const MSG_TYPE_WHISPER: u32 = 11;

pub const MSG_TYPE_EMOTE: u32 = 12;

pub const MSG_TYPE_EMOTE_CUSTOM: u32 = 13;

// The action values of the emote payload shape.
pub const EMOTE_ACTION_BLESS: u32 = 0;

pub const EMOTE_ACTION_BECKON: u32 = 1;

pub const EMOTE_ACTION_DANCE: u32 = 2;

pub const EMOTE_ACTION_SIT: u32 = 3;

pub const EMOTE_ACTION_YES: u32 = 4;

pub const EMOTE_ACTION_NO: u32 = 5;

pub const EMOTE_ACTION_COWER: u32 = 6;

pub const EMOTE_ACTION_LAUGH: u32 = 7;

/// Why a raw event failed to decode.
#[derive(Debug, Clone, Copy, PartialEq, Eq, Structural)]
pub enum DecodeError {
    /// A present string field held bytes that are not valid UTF-8.
    InvalidUtf8,
    /// The wire said the event itself is an error record.
    ErrorType,
    /// A channel-type value this decoder does not know.
    UnknownType(u32),
}

/// The account identifier of the common prefix, a plain 16-byte GUID.
#[derive(Debug, Clone, Copy, PartialEq, Eq)]
pub struct GloballyUniqueIdentifier {
    pub data1: u32,
    pub data2: u16,
    pub data3: u16,
    pub data4: [u8; 8],
}

impl Default for GloballyUniqueIdentifier {
    /// The all-zero identifier.
    fn default() -> (r: GloballyUniqueIdentifier)
        ensures
            r.data1 == 0 && r.data2 == 0 && r.data3 == 0,
            forall|i: int| 0 <= i < 8 ==> r.data4@[i] == 0,
    {
        GloballyUniqueIdentifier { data1: 0, data2: 0, data3: 0, data4: [0; 8] }
    }
}

/// The safe image of one raw extended chat event, one plain field per slot of
/// the foreign layout. Nullable strings arrive as optional byte buffers; the
/// timestamp arrives already split into calendar fields by the host's native
/// time conversion. Which fields are meaningful depends on `msg_type`; the
/// decoder reads only the fields of the selected shape.
pub struct RawChatEvent {
    pub msg_type: u32,
    pub timestamp: SystemTimeParts,
    /// Common-prefix slot: account identifier.
    pub account: GloballyUniqueIdentifier,
    /// Common-prefix slot: character name, null when absent.
    pub character_name: Option<Vec<u8>>,
    /// Common-prefix slot: account name, null when absent.
    pub account_name: Option<Vec<u8>>,
    /// Common-prefix slot: message content; also the content slot of the
    /// guild message-of-the-day shape.
    pub content: Option<Vec<u8>>,
    /// Trailing field of the guild shapes.
    pub guild_index: u32,
    /// Trailing field of the world-versus-world team shape.
    pub map_id: u32,
    /// The single string of the squad-message and squad-broadcast shapes.
    pub squad_message: Option<Vec<u8>>,
    /// The emote shapes' own character-name slot; their layout does not share
    /// the common prefix.
    pub emote_character_name: Option<Vec<u8>>,
    /// The built-in action of the emote shape.
    pub emote_action: u32,
    /// The action text of the custom-emote shape.
    pub emote_custom_action: Option<Vec<u8>>,
}

/// The decoded common prefix of most payload shapes. A name the wire did
/// not carry stays `None`; it is never conflated with a present empty name.
#[derive(Debug, Clone)]
pub struct GenericMessage {
    pub account: GloballyUniqueIdentifier,
    pub character_name: Option<String>,
    pub account_name: Option<String>,
    pub content: String,
}

/// A built-in game emote action.
#[derive(Debug, Clone, Copy, PartialEq, Eq, Structural)]
#[non_exhaustive]
pub enum GameEmote {
    Bless,
    Beckon,
    Dance,
    Sit,
    Yes,
    No,
    Cower,
    Laugh,
    Other(u32),
}

pub open spec fn game_emote_of(v: u32) -> GameEmote {
    if v == EMOTE_ACTION_BLESS {
        GameEmote::Bless
    } else if v == EMOTE_ACTION_BECKON {
        GameEmote::Beckon
    } else if v == EMOTE_ACTION_DANCE {
        GameEmote::Dance
    } else if v == EMOTE_ACTION_SIT {
        GameEmote::Sit
    } else if v == EMOTE_ACTION_YES {
        GameEmote::Yes
    } else if v == EMOTE_ACTION_NO {
        GameEmote::No
    } else if v == EMOTE_ACTION_COWER {
        GameEmote::Cower
    } else if v == EMOTE_ACTION_LAUGH {
        GameEmote::Laugh
    } else {
        GameEmote::Other(v)
    }
}

/// The decoded event source: one variant per known payload shape.
#[derive(Debug, Clone)]
pub enum MessageSource {
    Guild { message: GenericMessage, guild_index: u32 },
    GuildMotD { content: String, guild_index: u32 },
    Local(GenericMessage),
    MapChannel(GenericMessage),
    Party(GenericMessage),
    Squad(GenericMessage),
    SquadMessage(String),
    TeamPvP(GenericMessage),
    TeamWvW { message: GenericMessage, map_id: u32 },
    Whisper(GenericMessage),
    Emote { character_name: Option<String>, action_taken: GameEmote },
    EmoteCustom { character_name: Option<String>, action_taken: String },
}

/// The bytes of a nullable string slot.
pub open spec fn opt_bytes(b: Option<Vec<u8>>) -> Option<Seq<u8>> {
    match b {
        Option::None => Option::None,
        Option::Some(v) => Option::Some(v@),
    }
}

/// Whether an optional byte string decodes: absent fields always do, present
/// ones exactly when their bytes are valid UTF-8.
pub open spec fn utf8_opt_ok(b: Option<Seq<u8>>) -> bool {
    match b {
        Option::None => true,
        Option::Some(x) => valid_utf8(x),
    }
}

/// The characters of an optional byte string: absent stays absent, never an
/// empty string.
pub open spec fn utf8_opt_chars(b: Option<Seq<u8>>) -> Option<Seq<char>> {
    match b {
        Option::None => Option::None,
        Option::Some(x) => Option::Some(decode_utf8(x)),
    }
}

/// The characters of an optional byte string where the consumer treats
/// absence as the empty string.
pub open spec fn utf8_chars_or_empty(b: Option<Seq<u8>>) -> Seq<char> {
    match b {
        Option::None => Seq::empty(),
        Option::Some(x) => decode_utf8(x),
    }
}

/// Whether `g` is the decoding of the given common-prefix slots.
pub open spec fn decodes_generic(
    g: GenericMessage,
    account: GloballyUniqueIdentifier,
    character_name: Option<Seq<u8>>,
    account_name: Option<Seq<u8>>,
    content: Option<Seq<u8>>,
) -> bool {
    &&& g.account == account
    &&& g.character_name.deep_view() == utf8_opt_chars(character_name)
    &&& g.account_name.deep_view() == utf8_opt_chars(account_name)
    &&& g.content@ == utf8_chars_or_empty(content)
}

/// Whether the common prefix of `raw` decodes without a UTF-8 fault.
pub open spec fn generic_ok(raw: RawChatEvent) -> bool {
    &&& utf8_opt_ok(opt_bytes(raw.character_name))
    &&& utf8_opt_ok(opt_bytes(raw.account_name))
    &&& utf8_opt_ok(opt_bytes(raw.content))
}

/// Whether decoding `raw` succeeds: the channel type must be known and not
/// the error record, and every string slot of the selected shape must be
/// valid UTF-8.
pub open spec fn source_decode_ok(raw: RawChatEvent) -> bool {
    if raw.msg_type == MSG_TYPE_GUILD || raw.msg_type == MSG_TYPE_LOCAL || raw.msg_type
        == MSG_TYPE_MAP || raw.msg_type == MSG_TYPE_PARTY || raw.msg_type == MSG_TYPE_SQUAD
        || raw.msg_type == MSG_TYPE_TEAM_PVP || raw.msg_type == MSG_TYPE_TEAM_WVW || raw.msg_type
        == MSG_TYPE_WHISPER {
        generic_ok(raw)
    } else if raw.msg_type == MSG_TYPE_GUILD_MOTD {
        utf8_opt_ok(opt_bytes(raw.content))
    } else if raw.msg_type == MSG_TYPE_SQUAD_MESSAGE || raw.msg_type == MSG_TYPE_SQUAD_BROADCAST {
        utf8_opt_ok(opt_bytes(raw.squad_message))
    } else if raw.msg_type == MSG_TYPE_EMOTE {
        utf8_opt_ok(opt_bytes(raw.emote_character_name))
    } else if raw.msg_type == MSG_TYPE_EMOTE_CUSTOM {
        utf8_opt_ok(opt_bytes(raw.emote_character_name)) && utf8_opt_ok(
            opt_bytes(raw.emote_custom_action),
        )
    } else {
        false
    }
}

/// The error a failing decode of `raw` reports.
pub open spec fn source_decode_error(raw: RawChatEvent) -> DecodeError {
    if raw.msg_type == MSG_TYPE_ERROR {
        DecodeError::ErrorType
    } else if raw.msg_type > MSG_TYPE_EMOTE_CUSTOM {
        DecodeError::UnknownType(raw.msg_type)
    } else {
        DecodeError::InvalidUtf8
    }
}

/// Whether `m` is the decoding of `raw`: the variant selected by the channel
/// type, carrying exactly the selected shape's fields.
pub open spec fn source_decodes(raw: RawChatEvent, m: MessageSource) -> bool {
    if raw.msg_type == MSG_TYPE_GUILD {
        m matches MessageSource::Guild { message, guild_index } && decodes_generic(
            message,
            raw.account,
            opt_bytes(raw.character_name),
            opt_bytes(raw.account_name),
            opt_bytes(raw.content),
        ) && guild_index == raw.guild_index
    } else if raw.msg_type == MSG_TYPE_GUILD_MOTD {
        m matches MessageSource::GuildMotD { content, guild_index } && content@
            == utf8_chars_or_empty(opt_bytes(raw.content)) && guild_index == raw.guild_index
    } else if raw.msg_type == MSG_TYPE_LOCAL {
        m matches MessageSource::Local(g) && decodes_generic(
            g,
            raw.account,
            opt_bytes(raw.character_name),
            opt_bytes(raw.account_name),
            opt_bytes(raw.content),
        )
    } else if raw.msg_type == MSG_TYPE_MAP {
        m matches MessageSource::MapChannel(g) && decodes_generic(
            g,
            raw.account,
            opt_bytes(raw.character_name),
            opt_bytes(raw.account_name),
            opt_bytes(raw.content),
        )
    } else if raw.msg_type == MSG_TYPE_PARTY {
        m matches MessageSource::Party(g) && decodes_generic(
            g,
            raw.account,
            opt_bytes(raw.character_name),
            opt_bytes(raw.account_name),
            opt_bytes(raw.content),
        )
    } else if raw.msg_type == MSG_TYPE_SQUAD {
        m matches MessageSource::Squad(g) && decodes_generic(
            g,
            raw.account,
            opt_bytes(raw.character_name),
            opt_bytes(raw.account_name),
            opt_bytes(raw.content),
        )
    } else if raw.msg_type == MSG_TYPE_SQUAD_MESSAGE || raw.msg_type == MSG_TYPE_SQUAD_BROADCAST {
        m matches MessageSource::SquadMessage(c) && c@ == utf8_chars_or_empty(
            opt_bytes(raw.squad_message),
        )
    } else if raw.msg_type == MSG_TYPE_TEAM_PVP {
        m matches MessageSource::TeamPvP(g) && decodes_generic(
            g,
            raw.account,
            opt_bytes(raw.character_name),
            opt_bytes(raw.account_name),
            opt_bytes(raw.content),
        )
    } else if raw.msg_type == MSG_TYPE_TEAM_WVW {
        m matches MessageSource::TeamWvW { message, map_id } && decodes_generic(
            message,
            raw.account,
            opt_bytes(raw.character_name),
            opt_bytes(raw.account_name),
            opt_bytes(raw.content),
        ) && map_id == raw.map_id
    } else if raw.msg_type == MSG_TYPE_WHISPER {
        m matches MessageSource::Whisper(g) && decodes_generic(
            g,
            raw.account,
            opt_bytes(raw.character_name),
            opt_bytes(raw.account_name),
            opt_bytes(raw.content),
        )
    } else if raw.msg_type == MSG_TYPE_EMOTE {
        m matches MessageSource::Emote { character_name, action_taken } && character_name.deep_view()
            == utf8_opt_chars(opt_bytes(raw.emote_character_name)) && action_taken
            == game_emote_of(raw.emote_action)
    } else if raw.msg_type == MSG_TYPE_EMOTE_CUSTOM {
        m matches MessageSource::EmoteCustom { character_name, action_taken }
            && character_name.deep_view() == utf8_opt_chars(opt_bytes(raw.emote_character_name))
            && action_taken@ == utf8_chars_or_empty(opt_bytes(raw.emote_custom_action))
    } else {
        false
    }
}

/// Decodes one nullable string slot: absence is kept as absence (never turned
/// into an empty string), presence requires valid UTF-8.
pub fn decode_opt_string(b: Option<Vec<u8>>) -> (r: Result<Option<String>, DecodeError>)
    ensures
        r is Ok <==> utf8_opt_ok(opt_bytes(b)),
        r matches Ok(s) ==> s.deep_view() == utf8_opt_chars(opt_bytes(b)),
        r is Err ==> r == Err::<Option<String>, DecodeError>(DecodeError::InvalidUtf8),
{
    match b {
        None => Ok(None),
        Some(bytes) => match bytes_to_string(bytes) {
            Some(s) => Ok(Some(s)),
            None => Err(DecodeError::InvalidUtf8),
        },
    }
}

/// Decodes one nullable string slot whose consumer reads absence as "".
pub fn decode_string_or_empty(b: Option<Vec<u8>>) -> (r: Result<String, DecodeError>)
    ensures
        r is Ok <==> utf8_opt_ok(opt_bytes(b)),
        r matches Ok(s) ==> s@ == utf8_chars_or_empty(opt_bytes(b)),
        r is Err ==> r == Err::<String, DecodeError>(DecodeError::InvalidUtf8),
{
    match b {
        None => Ok(String::new()),
        Some(bytes) => match bytes_to_string(bytes) {
            Some(s) => Ok(s),
            None => Err(DecodeError::InvalidUtf8),
        },
    }
}

/// Decodes the common prefix shared by most payload shapes: null name slots
/// stay absent, never empty strings; an absent content slot reads as the
/// empty message. The emote shapes must never pass through here; their
/// layout is not prefix-compatible.
pub fn union_to_generic(
    account: GloballyUniqueIdentifier,
    character_name: Option<Vec<u8>>,
    account_name: Option<Vec<u8>>,
    content: Option<Vec<u8>>,
) -> (r: Result<GenericMessage, DecodeError>)
    ensures
        r is Ok <==> utf8_opt_ok(opt_bytes(character_name)) && utf8_opt_ok(
            opt_bytes(account_name),
        ) && utf8_opt_ok(opt_bytes(content)),
        r matches Ok(g) ==> decodes_generic(
            g,
            account,
            opt_bytes(character_name),
            opt_bytes(account_name),
            opt_bytes(content),
        ),
        r is Err ==> r == Err::<GenericMessage, DecodeError>(DecodeError::InvalidUtf8),
{
    let character_name = decode_opt_string(character_name)?;
    let account_name = decode_opt_string(account_name)?;
    let content = decode_string_or_empty(content)?;
    Ok(GenericMessage { account, character_name, account_name, content })
}

impl MessageSource {
    /// Decodes one raw extended event into its typed source. Exactly one
    /// payload shape is read, chosen by the channel-type value; the emote
    /// shapes take their own path. Error records and unknown channel types
    /// fail the decode; nothing panics.
    pub fn from_raw(raw: RawChatEvent) -> (r: Result<MessageSource, DecodeError>)
        ensures
            r is Ok <==> source_decode_ok(raw),
            r matches Ok(m) ==> source_decodes(raw, m),
            r matches Err(e) ==> e == source_decode_error(raw),
    {
        if raw.msg_type == MSG_TYPE_ERROR {
            Err(DecodeError::ErrorType)
        } else if raw.msg_type == MSG_TYPE_GUILD {
            let message = union_to_generic(
                raw.account,
                raw.character_name,
                raw.account_name,
                raw.content,
            )?;
            Ok(MessageSource::Guild { message, guild_index: raw.guild_index })
        } else if raw.msg_type == MSG_TYPE_GUILD_MOTD {
            let content = decode_string_or_empty(raw.content)?;
            Ok(MessageSource::GuildMotD { content, guild_index: raw.guild_index })
        } else if raw.msg_type == MSG_TYPE_LOCAL {
            let g = union_to_generic(raw.account, raw.character_name, raw.account_name, raw.content)?;
            Ok(MessageSource::Local(g))
        } else if raw.msg_type == MSG_TYPE_MAP {
            let g = union_to_generic(raw.account, raw.character_name, raw.account_name, raw.content)?;
            Ok(MessageSource::MapChannel(g))
        } else if raw.msg_type == MSG_TYPE_PARTY {
            let g = union_to_generic(raw.account, raw.character_name, raw.account_name, raw.content)?;
            Ok(MessageSource::Party(g))
        } else if raw.msg_type == MSG_TYPE_SQUAD {
            let g = union_to_generic(raw.account, raw.character_name, raw.account_name, raw.content)?;
            Ok(MessageSource::Squad(g))
        } else if raw.msg_type == MSG_TYPE_SQUAD_MESSAGE || raw.msg_type == MSG_TYPE_SQUAD_BROADCAST {
            let content = decode_string_or_empty(raw.squad_message)?;
            Ok(MessageSource::SquadMessage(content))
        } else if raw.msg_type == MSG_TYPE_TEAM_PVP {
            let g = union_to_generic(raw.account, raw.character_name, raw.account_name, raw.content)?;
            Ok(MessageSource::TeamPvP(g))
        } else if raw.msg_type == MSG_TYPE_TEAM_WVW {
            let message = union_to_generic(
                raw.account,
                raw.character_name,
                raw.account_name,
                raw.content,
            )?;
            Ok(MessageSource::TeamWvW { message, map_id: raw.map_id })
        } else if raw.msg_type == MSG_TYPE_WHISPER {
            let g = union_to_generic(raw.account, raw.character_name, raw.account_name, raw.content)?;
            Ok(MessageSource::Whisper(g))
        } else if raw.msg_type == MSG_TYPE_EMOTE {
            let character_name = decode_opt_string(raw.emote_character_name)?;
            let action_taken = if raw.emote_action == EMOTE_ACTION_BLESS {
                GameEmote::Bless
            } else if raw.emote_action == EMOTE_ACTION_BECKON {
                GameEmote::Beckon
            } else if raw.emote_action == EMOTE_ACTION_DANCE {
                GameEmote::Dance
            } else if raw.emote_action == EMOTE_ACTION_SIT {
                GameEmote::Sit
            } else if raw.emote_action == EMOTE_ACTION_YES {
                GameEmote::Yes
            } else if raw.emote_action == EMOTE_ACTION_NO {
                GameEmote::No
            } else if raw.emote_action == EMOTE_ACTION_COWER {
                GameEmote::Cower
            } else if raw.emote_action == EMOTE_ACTION_LAUGH {
                GameEmote::Laugh
            } else {
                GameEmote::Other(raw.emote_action)
            };
            Ok(MessageSource::Emote { character_name, action_taken })
        } else if raw.msg_type == MSG_TYPE_EMOTE_CUSTOM {
            let character_name = decode_opt_string(raw.emote_character_name)?;
            let action_taken = decode_string_or_empty(raw.emote_custom_action)?;
            Ok(MessageSource::EmoteCustom { character_name, action_taken })
        } else {
            Err(DecodeError::UnknownType(raw.msg_type))
        }
    }

    /// Which characters this event contributes to emote matching: the message
    /// content where the shape has one, nothing for the emote shapes.
    pub open spec fn content_spec(&self) -> Option<Seq<char>> {
        match self {
            MessageSource::Guild { message, .. } => Some(message.content@),
            MessageSource::GuildMotD { content, .. } => Some(content@),
            MessageSource::Local(message) => Some(message.content@),
            MessageSource::MapChannel(message) => Some(message.content@),
            MessageSource::Party(message) => Some(message.content@),
            MessageSource::Squad(message) => Some(message.content@),
            MessageSource::SquadMessage(content) => Some(content@),
            MessageSource::TeamPvP(message) => Some(message.content@),
            MessageSource::TeamWvW { message, .. } => Some(message.content@),
            MessageSource::Whisper(message) => Some(message.content@),
            MessageSource::Emote { .. } => None,
            MessageSource::EmoteCustom { .. } => None,
        }
    }

    /// The message text of this event, if its shape carries one.
    pub fn content(&self) -> (r: Option<&String>)
        ensures
            r.deep_view() == self.content_spec(),
    {
        match self {
            MessageSource::Guild { message, .. } => Some(&message.content),
            MessageSource::GuildMotD { content, .. } => Some(content),
            MessageSource::Local(message) => Some(&message.content),
            MessageSource::MapChannel(message) => Some(&message.content),
            MessageSource::Party(message) => Some(&message.content),
            MessageSource::Squad(message) => Some(&message.content),
            MessageSource::SquadMessage(content) => Some(content),
            MessageSource::TeamPvP(message) => Some(&message.content),
            MessageSource::TeamWvW { message, .. } => Some(&message.content),
            MessageSource::Whisper(message) => Some(&message.content),
            MessageSource::Emote { .. } => None,
            MessageSource::EmoteCustom { .. } => None,
        }
    }
}

/// One decoded chat event.
#[derive(Debug, Clone)]
pub struct Message {
    pub timestamp: Timestamp,
    pub source: MessageSource,
}

impl Message {
    /// Decodes a whole raw event. A bad string fails the event; a timestamp
    /// whose fields do not name a real calendar instant does not — the event
    /// falls back to `now`, the caller's current time.
    pub fn decode(raw: RawChatEvent, now: Timestamp) -> (r: Result<Message, DecodeError>)
        requires
            now.well_formed(),
        ensures
            r is Ok <==> source_decode_ok(raw),
            r matches Ok(m) ==> source_decodes(raw, m.source),
            r matches Ok(m) ==> m.timestamp.well_formed(),
            r matches Ok(m) ==> if crate::timestamp::parts_valid(raw.timestamp) {
                m.timestamp.matches_parts(raw.timestamp)
            } else {
                m.timestamp == now
            },
            r matches Err(e) ==> e == source_decode_error(raw),
    {
        let timestamp = match Timestamp::from_parts(raw.timestamp) {
            Some(t) => t,
            None => now,
        };
        let source = MessageSource::from_raw(raw)?;
        Ok(Message { timestamp, source })
    }

    /// The message text of this event, if its shape carries one.
    pub fn content(&self) -> (r: Option<&String>)
        ensures
            r.deep_view() == self.source.content_spec(),
    {
        self.source.content()
    }
}

} // verus!
