//! Conversion from the compact chat-event source's host-decoded form (the
//! extras API hands over owned strings, a channel kind and a timestamp) into
//! the one typed event the overlay consumes. Only the party and squad
//! channels carry overlay-relevant messages; the reserved and invalid kinds
//! convert to nothing rather than ever panicking.

use crate::chat_events::{GenericMessage, GloballyUniqueIdentifier, Message, MessageSource};
use crate::timestamp::{SystemTimeParts, Timestamp};
use vstd::prelude::*;

verus! {

/// The channel kinds the extras source distinguishes.
#[derive(Debug, Clone, Copy, PartialEq, Eq, Structural)]
pub enum ExtrasChannel {
    Party,
    Squad,
    Reserved,
    Invalid,
}

/// One message as the extras source reports it: strings already owned and
/// validated by the host layer, the timestamp split into calendar fields.
#[derive(Debug, Clone)]
pub struct ExtrasMessageInfo {
    pub channel_type: ExtrasChannel,
    pub character_name: String,
    pub account_name: String,
    pub text: String,
    pub timestamp: SystemTimeParts,
}

/// Converts one extras-source message into the overlay's event type. Party
/// and squad messages convert — the speaker's names and the text carried
/// over verbatim, both names always present from this source — and the
/// reserved and invalid kinds yield nothing. A timestamp whose fields name
/// no real calendar instant falls back to `now`.
pub fn message_from_extras(info: ExtrasMessageInfo, now: Timestamp) -> (r: Option<Message>)
    requires
        now.well_formed(),
    ensures
        r is Some <==> (info.channel_type == ExtrasChannel::Party || info.channel_type
            == ExtrasChannel::Squad),
        r matches Some(m) ==> {
            let g = match m.source {
                MessageSource::Party(g) => g,
                MessageSource::Squad(g) => g,
                _ => arbitrary(),
            };
            &&& (info.channel_type == ExtrasChannel::Party ==> m.source
                matches MessageSource::Party(_))
            &&& (info.channel_type == ExtrasChannel::Squad ==> m.source
                matches MessageSource::Squad(_))
            &&& (g.character_name matches Some(c) && c@ == info.character_name@)
            &&& (g.account_name matches Some(a) && a@ == info.account_name@)
            &&& g.content@ == info.text@
            &&& g.account.data1 == 0 && g.account.data2 == 0 && g.account.data3 == 0
            &&& forall|i: int| 0 <= i < 8 ==> g.account.data4@[i] == 0
            &&& m.timestamp.well_formed()
            &&& if crate::timestamp::parts_valid(info.timestamp) {
                m.timestamp.matches_parts(info.timestamp)
            } else {
                m.timestamp == now
            }
        },
{
    let timestamp = match Timestamp::from_parts(info.timestamp) {
        Some(t) => t,
        None => now,
    };
    let generic = GenericMessage {
        account: GloballyUniqueIdentifier::default(),
        character_name: Some(info.character_name),
        account_name: Some(info.account_name),
        content: info.text,
    };
    match info.channel_type {
        ExtrasChannel::Party => Some(Message { timestamp, source: MessageSource::Party(generic) }),
        ExtrasChannel::Squad => Some(Message { timestamp, source: MessageSource::Squad(generic) }),
        ExtrasChannel::Reserved => None,
        ExtrasChannel::Invalid => None,
    }
}

} // verus!
