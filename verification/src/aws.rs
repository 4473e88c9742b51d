use vstd::prelude::*;

verus! {

/// The event kinds the external matchmaking service reports.
#[derive(Clone, Copy, PartialEq, Eq, Structural, Debug)]
pub enum FlexMatchEvents {
    MatchmakingSearching,
    PotentialMatchCreated,
    AcceptMatch,
    AcceptMatchCompleted,
    MatchmakingSucceeded,
    MatchmakingTimedOut,
    MatchmakingCancelled,
    MatchmakingFailed,
}

impl FlexMatchEvents {
    /// The wire name of the event kind, used as the failure reason text.
    pub open spec fn spec_name(self) -> Seq<char> {
        match self {
            FlexMatchEvents::MatchmakingSearching => "MatchmakingSearching"@,
            FlexMatchEvents::PotentialMatchCreated => "PotentialMatchCreated"@,
            FlexMatchEvents::AcceptMatch => "AcceptMatch"@,
            FlexMatchEvents::AcceptMatchCompleted => "AcceptMatchCompleted"@,
            FlexMatchEvents::MatchmakingSucceeded => "MatchmakingSucceeded"@,
            FlexMatchEvents::MatchmakingTimedOut => "MatchmakingTimedOut"@,
            FlexMatchEvents::MatchmakingCancelled => "MatchmakingCancelled"@,
            FlexMatchEvents::MatchmakingFailed => "MatchmakingFailed"@,
        }
    }

    pub fn name(&self) -> (r: String)
        ensures
            r@ == self.spec_name(),
    {
        match self {
            FlexMatchEvents::MatchmakingSearching => String::from_str("MatchmakingSearching"),
            FlexMatchEvents::PotentialMatchCreated => String::from_str("PotentialMatchCreated"),
            FlexMatchEvents::AcceptMatch => String::from_str("AcceptMatch"),
            FlexMatchEvents::AcceptMatchCompleted => String::from_str("AcceptMatchCompleted"),
            FlexMatchEvents::MatchmakingSucceeded => String::from_str("MatchmakingSucceeded"),
            FlexMatchEvents::MatchmakingTimedOut => String::from_str("MatchmakingTimedOut"),
            FlexMatchEvents::MatchmakingCancelled => String::from_str("MatchmakingCancelled"),
            FlexMatchEvents::MatchmakingFailed => String::from_str("MatchmakingFailed"),
        }
    }
}

/// The envelope common to every matchmaking notification.
pub struct FlexMatchData<T> {
    pub id: String,
    pub account: String,
    pub region: String,
    pub resources: Vec<String>,
    pub detail: T,
}

/// One ticket reference of a notification.
pub struct FlexMatchTicket {
    pub ticket_id: String,
}

/// The kind-independent detail of a notification.
pub struct FlexMatchDetail {
    pub tickets: Vec<FlexMatchTicket>,
    pub e_type: FlexMatchEvents,
}

/// The detail of a potential-match notification.
pub struct FlexMatchPotentialDetail {
    pub tickets: Vec<FlexMatchTicket>,
    pub e_type: FlexMatchEvents,
    pub match_id: String,
}

/// The detail of a succeeded-match notification.
pub struct FlexMatchSucceededDetail {
    pub tickets: Vec<FlexMatchTicket>,
    pub e_type: FlexMatchEvents,
    pub match_id: String,
    pub game_session_info: FlexMatchGameSession,
}

/// Where the created game session lives and who plays in it.
pub struct FlexMatchGameSession {
    pub ip_address: String,
    pub port: i32,
    pub players: Vec<FlexMatchPlayerGameSession>,
}

/// One matched player's session coordinates.
pub struct FlexMatchPlayerGameSession {
    pub player_id: String,
    pub player_session_id: String,
}

/// The value a ticket text parses to, if it is a well-formed ticket id.
pub uninterp spec fn uuid_of(s: Seq<char>) -> Option<u128>;

/// Relies on `uuid::Uuid::parse_str` and `uuid::Uuid::as_u128`: parses the
/// textual forms of a ticket id (simple, hyphenated, braced or URN) into
/// its big-endian 128-bit value; the result depends on the characters alone.
#[verifier::external_body]
pub fn parse_ticket(s: &str) -> (r: Option<u128>)
    ensures
        r == uuid_of(s@),
{
    match uuid::Uuid::parse_str(s) {
        Ok(u) => Some(u.as_u128()),
        Err(_) => None,
    }
}

/// Relies on `uuid::Uuid::new_v4`: draws a random version-4 ticket id.
/// Nothing is promised of the value; the call aborts only if the operating
/// system's randomness source fails.
#[verifier::external_body]
pub fn new_ticket_id() -> u128 {
    uuid::Uuid::new_v4().as_u128()
}

} // verus!

verus! {

use crate::errors::RoomError;
use crate::service::custom_room_route;
use crate::service::failed_payload;
use crate::service::fwd_msgs_view;
use crate::service::slot_user_ids;
use crate::service::succ_msgs;
use crate::store::room_slots;
use crate::store::Store;
use crate::websocket::envelope_json;
use crate::websocket::ForwardMessage;
use crate::websocket::MultiForwardMessage;

/// A matchmaking notification after progressive decoding: first the common
/// envelope is read, then the kind-specific payload.
pub enum FlexMatchNotification {
    /// A match was placed; carries the full session detail.
    Succeeded(FlexMatchData<FlexMatchSucceededDetail>),
    /// The attempt failed, timed out or was cancelled; carries the kind
    /// and the ticket id it concerns.
    Failed(FlexMatchEvents, String),
    /// Any other event kind; ignored.
    Other,
}

/// What a handled notification produced.
pub enum SnsOutcome {
    /// One unicast per matched occupant.
    Succeeded(Vec<ForwardMessage>),
    /// One broadcast to the room's occupants.
    Failed(MultiForwardMessage),
    /// Nothing; the event kind carries no work.
    Ignored,
}

/// Dispatches one decoded matchmaking notification against the store. A
/// stale ticket is dropped with `UnknownTicket` and no mutation.
pub fn handle_sns_notification(notification: FlexMatchNotification, store: &mut Store) -> (r:
    Result<SnsOutcome, RoomError>)
    requires
        old(store).wf(),
    ensures
        final(store).wf(),
        match notification {
            FlexMatchNotification::Succeeded(data) => match r {
                Ok(out) => {
                    &&& out matches SnsOutcome::Succeeded(msgs)
                    &&& data.detail.tickets@.len() > 0
                    &&& exists|j: int|
                        0 <= j < old(store).rooms@.len() && (#[trigger] old(
                            store,
                        ).rooms@[j]).matchmaking_ticket is Some && old(
                            store,
                        ).rooms@[j].matchmaking_ticket == uuid_of(
                            data.detail.tickets@[0].ticket_id@,
                        ) && final(store).rooms@ == old(store).rooms@.remove(j)
                            && final(store).slots@ == crate::store::slots_without_room(
                            old(store).slots@,
                            old(store).rooms@[j].id as int,
                        ) && (out matches SnsOutcome::Succeeded(msgs) ==> fwd_msgs_view(msgs@)
                            == succ_msgs(
                            room_slots(old(store).slots@, old(store).rooms@[j].id as int),
                            data.detail.game_session_info.players@,
                            data.detail.game_session_info.ip_address@,
                            data.detail.game_session_info.port,
                        ))
                },
                Err(e) => {
                    &&& e == RoomError::UnknownTicket
                    &&& *final(store) == *old(store)
                },
            },
            FlexMatchNotification::Failed(reason, tid) => match r {
                Ok(out) => {
                    &&& out matches SnsOutcome::Failed(msg)
                    &&& exists|j: int|
                        0 <= j < old(store).rooms@.len() && (#[trigger] old(
                            store,
                        ).rooms@[j]).matchmaking_ticket is Some && old(
                            store,
                        ).rooms@[j].matchmaking_ticket == uuid_of(tid@) && final(store).rooms@
                            == old(store).rooms@.update(
                            j,
                            crate::store::with_ticket(old(store).rooms@[j], None),
                        ) && (out matches SnsOutcome::Failed(msg) ==> msg.ids@ == slot_user_ids(
                            room_slots(old(store).slots@, old(store).rooms@[j].id as int),
                        ) && msg.message@ == envelope_json(
                            custom_room_route(),
                            "matchmaking-failed"@,
                            failed_payload(reason.spec_name()),
                        ))
                    &&& final(store).slots@ == old(store).slots@
                    &&& final(store).users@ == old(store).users@
                },
                Err(e) => {
                    &&& e == RoomError::UnknownTicket
                    &&& *final(store) == *old(store)
                    &&& (uuid_of(tid@) is None || forall|j: int|
                        0 <= j < old(store).rooms@.len() ==> !((#[trigger] old(
                            store,
                        ).rooms@[j]).matchmaking_ticket is Some && old(
                            store,
                        ).rooms@[j].matchmaking_ticket == uuid_of(tid@)))
                },
            },
            FlexMatchNotification::Other => r matches Ok(out) && out == SnsOutcome::Ignored
                && *final(store) == *old(store),
        },
{
    match notification {
        FlexMatchNotification::Succeeded(data) => {
            match crate::service::matchmaking_succeeded(data, store) {
                Ok(msgs) => Ok(SnsOutcome::Succeeded(msgs)),
                Err(e) => Err(e),
            }
        },
        FlexMatchNotification::Failed(reason, tid) => {
            match crate::service::matchmaking_failed(reason, tid.as_str(), store) {
                Ok(msg) => Ok(SnsOutcome::Failed(msg)),
                Err(e) => Err(e),
            }
        },
        FlexMatchNotification::Other => Ok(SnsOutcome::Ignored),
    }
}

} // verus!
