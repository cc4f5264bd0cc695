//! The contacts service as its callers see it: the requests it takes, the
//! replies it gives, how a reply is read, and what is reported when a contact
//! shows signs of life.
//!
//! The service itself runs elsewhere. A caller sends a request, waits, and
//! hands the reply to the function here that reads it.

use crate::peer::NodeId;
use crate::text::{bytes_to_hex, hex_of_bytes, hex_of_number, number_to_hex};
use chrono::{DateTime, FixedOffset};
use vstd::prelude::*;

verus! {

/// A point in time: whole seconds since the start of 1970, UTC, and the
/// nanoseconds into the second.
#[derive(Clone, Copy, Debug, PartialEq, Eq, Structural)]
pub struct Timestamp {
    pub secs: i64,
    pub nanos: u32,
}

/// The date and the time of day at which the point in time given by `secs`
/// and `nanos` falls on a clock that is `offset_secs` seconds ahead of UTC,
/// written as year-month-day, a space, and hours:minutes:seconds. There is
/// none where the calendar in use cannot hold the point in time or the
/// offset.
pub uninterp spec fn local_time_text(secs: i64, nanos: u32, offset_secs: i32) -> Option<Seq<char>>;

/// The characters of a text that may be there or not.
pub open spec fn text_view(text: Option<String>) -> Option<Seq<char>> {
    match text {
        Some(t) => Some(t@),
        None => None,
    }
}

/// Writes out a point in time as a clock `offset_secs` ahead of UTC shows
/// it. The work is chrono's: `FixedOffset::east_opt` makes the offset,
/// `DateTime::from_timestamp` the point in time, `DateTime::with_timezone`
/// moves it to the offset, and `format` with `%F %T` writes it. The first
/// two give nothing for values out of their range, and then so does this
/// function: `east_opt` takes offsets of less than a day to either side,
/// and `from_timestamp` takes no two thousand million nanoseconds or more.
/// The result depends on the three numbers alone, and `local_time_text` is
/// the name for it.
#[verifier::external_body]
pub(crate) fn write_local_time(secs: i64, nanos: u32, offset_secs: i32) -> (text: Option<String>)
    ensures
        text_view(text) == local_time_text(secs, nanos, offset_secs),
        offset_secs <= -86_400 || offset_secs >= 86_400 ==> text is None,
        nanos >= 2_000_000_000 ==> text is None,
{
    let offset = FixedOffset::east_opt(offset_secs)?;
    let utc = DateTime::from_timestamp(secs, nanos)?;
    Some(utc.with_timezone(&offset).format("%F %T").to_string())
}

/// The public key by which a contact is known on the network.
#[derive(Debug, Clone, PartialEq, Eq)]
pub struct CommsPublicKey {
    pub bytes: Vec<u8>,
}

/// The kind of liveness message that was seen from a contact.
#[derive(Clone, Copy, Debug, PartialEq, Eq, Structural)]
pub enum ContactMessageType {
    Ping,
    Pong,
    NoMessage,
}

/// Whether a contact is taken to be online.
#[derive(Clone, Copy, Debug, PartialEq, Eq, Structural)]
pub enum ContactOnlineStatus {
    Online,
    Offline,
    NeverSeen,
}

/// The name of a message type as it is written out.
pub open spec fn message_type_text(t: ContactMessageType) -> Seq<char> {
    match t {
        ContactMessageType::Ping => "Ping"@,
        ContactMessageType::Pong => "Pong"@,
        ContactMessageType::NoMessage => "NoMessage"@,
    }
}

/// The name of an online status as it is written out.
pub open spec fn online_status_text(s: ContactOnlineStatus) -> Seq<char> {
    match s {
        ContactOnlineStatus::Online => "Online"@,
        ContactOnlineStatus::Offline => "Offline"@,
        ContactOnlineStatus::NeverSeen => "NeverSeen"@,
    }
}

impl ContactMessageType {
    /// The name of the message type.
    pub fn as_str(&self) -> (text: &'static str)
        ensures
            text@ == message_type_text(*self),
    {
        match self {
            ContactMessageType::Ping => "Ping",
            ContactMessageType::Pong => "Pong",
            ContactMessageType::NoMessage => "NoMessage",
        }
    }
}

impl ContactOnlineStatus {
    /// The name of the status.
    pub fn as_str(&self) -> (text: &'static str)
        ensures
            text@ == online_status_text(*self),
    {
        match self {
            ContactOnlineStatus::Online => "Online",
            ContactOnlineStatus::Offline => "Offline",
            ContactOnlineStatus::NeverSeen => "NeverSeen",
        }
    }
}

/// A contact as the service keeps it.
#[derive(Debug, Clone, PartialEq, Eq)]
pub struct Contact {
    pub alias: String,
    pub public_key: CommsPublicKey,
    pub node_id: NodeId,
    pub last_seen: Option<Timestamp>,
    pub latency: Option<u32>,
}

/// The line that reports a sign of life: which message was seen from which
/// contact, and either when the contact was last seen, in local time, and
/// what that makes of it, or that it was never seen. The line ends with a
/// line feed.
pub open spec fn liveness_line(
    message_type: ContactMessageType,
    public_key: Seq<u8>,
    node_id: NodeId,
    last_seen: Option<Seq<char>>,
    online_status: ContactOnlineStatus,
) -> Seq<char> {
    "Liveness event '"@ + message_type_text(message_type) + "' for contact "@ + hex_of_bytes(
        public_key,
    ) + " ("@ + hex_of_number(node_id.value, 32) + ") "@ + (match last_seen {
        Some(local_time) => "last seen "@ + local_time + " is '"@ + online_status_text(
            online_status,
        ) + "'"@,
        None => " - contact was never seen"@,
    }) + "\n"@
}

/// What is known of a contact's liveness at one moment.
#[derive(Debug, Clone, PartialEq, Eq)]
pub struct ContactsLivenessData {
    public_key: CommsPublicKey,
    node_id: NodeId,
    latency: Option<u32>,
    last_seen: Option<Timestamp>,
    message_type: ContactMessageType,
    online_status: ContactOnlineStatus,
}

impl ContactsLivenessData {
    pub closed spec fn spec_public_key(&self) -> CommsPublicKey {
        self.public_key
    }

    pub closed spec fn spec_node_id(&self) -> NodeId {
        self.node_id
    }

    pub closed spec fn spec_latency(&self) -> Option<u32> {
        self.latency
    }

    pub closed spec fn spec_last_seen(&self) -> Option<Timestamp> {
        self.last_seen
    }

    pub closed spec fn spec_message_type(&self) -> ContactMessageType {
        self.message_type
    }

    pub closed spec fn spec_online_status(&self) -> ContactOnlineStatus {
        self.online_status
    }

    pub fn new(
        public_key: CommsPublicKey,
        node_id: NodeId,
        latency: Option<u32>,
        last_seen: Option<Timestamp>,
        message_type: ContactMessageType,
        online_status: ContactOnlineStatus,
    ) -> (data: Self)
        ensures
            data.spec_public_key() == public_key,
            data.spec_node_id() == node_id,
            data.spec_latency() == latency,
            data.spec_last_seen() == last_seen,
            data.spec_message_type() == message_type,
            data.spec_online_status() == online_status,
    {
        Self { public_key, node_id, latency, last_seen, message_type, online_status }
    }

    pub fn public_key(&self) -> (key: &CommsPublicKey)
        ensures
            *key == self.spec_public_key(),
    {
        &self.public_key
    }

    pub fn node_id(&self) -> (id: &NodeId)
        ensures
            *id == self.spec_node_id(),
    {
        &self.node_id
    }

    pub fn latency(&self) -> (latency: Option<u32>)
        ensures
            latency == self.spec_latency(),
    {
        self.latency
    }

    /// When the last ping or pong of the contact was received, if ever.
    pub fn last_ping_pong_received(&self) -> (time: Option<Timestamp>)
        ensures
            time == self.spec_last_seen(),
    {
        self.last_seen
    }

    pub fn message_type(&self) -> (t: ContactMessageType)
        ensures
            t == self.spec_message_type(),
    {
        self.message_type
    }

    pub fn online_status(&self) -> (s: ContactOnlineStatus)
        ensures
            s == self.spec_online_status(),
    {
        self.online_status
    }

    /// Marks the contact as offline; nothing else changes.
    pub fn set_offline(&mut self)
        ensures
            final(self).spec_online_status() == ContactOnlineStatus::Offline,
            final(self).spec_public_key() == old(self).spec_public_key(),
            final(self).spec_node_id() == old(self).spec_node_id(),
            final(self).spec_latency() == old(self).spec_latency(),
            final(self).spec_last_seen() == old(self).spec_last_seen(),
            final(self).spec_message_type() == old(self).spec_message_type(),
    {
        self.online_status = ContactOnlineStatus::Offline
    }

    /// Writes the report line for a reader whose clock is `offset_secs`
    /// seconds ahead of UTC. There is no line where the time the contact
    /// was last seen cannot be written out.
    pub fn to_text(&self, offset_secs: i32) -> (text: Option<String>)
        ensures
            text_view(text) == (match self.spec_last_seen() {
                None => Some(
                    liveness_line(
                        self.spec_message_type(),
                        self.spec_public_key().bytes@,
                        self.spec_node_id(),
                        None,
                        self.spec_online_status(),
                    ),
                ),
                Some(seen) => match local_time_text(seen.secs, seen.nanos, offset_secs) {
                    Some(local_time) => Some(
                        liveness_line(
                            self.spec_message_type(),
                            self.spec_public_key().bytes@,
                            self.spec_node_id(),
                            Some(local_time),
                            self.spec_online_status(),
                        ),
                    ),
                    None => None,
                },
            }),
            self.spec_last_seen() is None ==> text is Some,
            self.spec_last_seen() is Some && (offset_secs <= -86_400 || offset_secs >= 86_400)
                ==> text is None,
    {
        match self.last_seen {
            None => Some(self.report_line("")),
            Some(seen) => match write_local_time(seen.secs, seen.nanos, offset_secs) {
                Some(local_time) => Some(self.report_line(local_time.as_str())),
                None => None,
            },
        }
    }

    /// Writes the report line. `local_time` is the time the contact was last
    /// seen as it is to be written; it is left out where the contact was never
    /// seen.
    pub fn report_line(&self, local_time: &str) -> (text: String)
        ensures
            text@ == liveness_line(
                self.spec_message_type(),
                self.spec_public_key().bytes@,
                self.spec_node_id(),
                if self.spec_last_seen() is Some {
                    Some(local_time@)
                } else {
                    None
                },
                self.spec_online_status(),
            ),
    {
        let mut text = String::from_str("Liveness event '");
        text.append(self.message_type.as_str());
        text.append("' for contact ");
        let key = bytes_to_hex(&self.public_key.bytes);
        text.append(key.as_str());
        text.append(" (");
        let id = number_to_hex(self.node_id.value, 32);
        text.append(id.as_str());
        text.append(") ");
        if self.last_seen.is_some() {
            let mut tail = String::from_str("last seen ");
            tail.append(local_time);
            tail.append(" is '");
            tail.append(self.online_status.as_str());
            tail.append("'");
            text.append(tail.as_str());
        } else {
            text.append(" - contact was never seen");
        }
        text.append("\n");
        text
    }
}

/// What the contacts service announces to those who listen.
#[derive(Debug)]
pub enum ContactsLivenessEvent {
    /// The liveness of one contact has changed.
    StatusUpdated(Box<ContactsLivenessData>),
    /// Nothing has been heard from anyone for a while.
    NetworkSilence,
}

/// A request to the contacts service.
#[derive(Debug)]
pub enum ContactsServiceRequest {
    GetContact(CommsPublicKey),
    UpsertContact(Contact),
    RemoveContact(CommsPublicKey),
    GetContacts,
    GetContactOnlineStatus(Option<Timestamp>),
}

/// A reply of the contacts service.
#[derive(Debug)]
pub enum ContactsServiceResponse {
    ContactSaved,
    ContactRemoved(Contact),
    Contact(Contact),
    Contacts(Vec<Contact>),
    OnlineStatus(ContactOnlineStatus),
}

/// Why a request never got its reply.
#[derive(Clone, Copy, Debug, PartialEq, Eq, Structural)]
pub enum TransportChannelError {
    /// The service has gone away.
    ChannelClosed,
    /// The service dropped the request without answering.
    Canceled,
}

/// Why a call to the contacts service failed.
#[derive(Clone, Copy, Debug, PartialEq, Eq, Structural)]
pub enum ContactsServiceError {
    /// The service knows no such contact.
    ContactNotFound,
    /// The service answered with a reply that does not fit the request.
    UnexpectedApiResponse,
    /// The request or its reply was lost on the way.
    TransportChannelError(TransportChannelError),
}

/// What comes back for a request: the service's reply or its error, unless
/// the exchange itself failed.
pub type ServiceReply = Result<
    Result<ContactsServiceResponse, ContactsServiceError>,
    TransportChannelError,
>;

/// The error that a reply carries, if it carries one: the error of the
/// exchange before the error of the service.
pub open spec fn failure_of(reply: ServiceReply) -> Option<ContactsServiceError> {
    match reply {
        Err(lost) => Some(ContactsServiceError::TransportChannelError(lost)),
        Ok(Err(error)) => Some(error),
        Ok(Ok(_)) => None,
    }
}

/// Reads the reply to `GetContact`: the contact asked for.
pub fn read_contact(reply: ServiceReply) -> (result: Result<Contact, ContactsServiceError>)
    ensures
        result == (match reply {
            Ok(Ok(ContactsServiceResponse::Contact(contact))) => Ok::<
                Contact,
                ContactsServiceError,
            >(contact),
            Ok(Ok(_)) => Err::<Contact, ContactsServiceError>(
                ContactsServiceError::UnexpectedApiResponse,
            ),
            _ => Err::<Contact, ContactsServiceError>(failure_of(reply)->0),
        }),
{
    match reply {
        Ok(Ok(ContactsServiceResponse::Contact(contact))) => Ok(contact),
        Ok(Ok(_)) => Err(ContactsServiceError::UnexpectedApiResponse),
        Ok(Err(error)) => Err(error),
        Err(lost) => Err(ContactsServiceError::TransportChannelError(lost)),
    }
}

/// Reads the reply to `GetContacts`: all contacts.
pub fn read_contacts(reply: ServiceReply) -> (result: Result<Vec<Contact>, ContactsServiceError>)
    ensures
        result == (match reply {
            Ok(Ok(ContactsServiceResponse::Contacts(contacts))) => Ok::<
                Vec<Contact>,
                ContactsServiceError,
            >(contacts),
            Ok(Ok(_)) => Err::<Vec<Contact>, ContactsServiceError>(
                ContactsServiceError::UnexpectedApiResponse,
            ),
            _ => Err::<Vec<Contact>, ContactsServiceError>(failure_of(reply)->0),
        }),
{
    match reply {
        Ok(Ok(ContactsServiceResponse::Contacts(contacts))) => Ok(contacts),
        Ok(Ok(_)) => Err(ContactsServiceError::UnexpectedApiResponse),
        Ok(Err(error)) => Err(error),
        Err(lost) => Err(ContactsServiceError::TransportChannelError(lost)),
    }
}

/// Reads the reply to `UpsertContact`: that the contact was saved.
pub fn read_saved(reply: ServiceReply) -> (result: Result<(), ContactsServiceError>)
    ensures
        result == (match reply {
            Ok(Ok(ContactsServiceResponse::ContactSaved)) => Ok::<(), ContactsServiceError>(()),
            Ok(Ok(_)) => Err::<(), ContactsServiceError>(
                ContactsServiceError::UnexpectedApiResponse,
            ),
            _ => Err::<(), ContactsServiceError>(failure_of(reply)->0),
        }),
{
    match reply {
        Ok(Ok(ContactsServiceResponse::ContactSaved)) => Ok(()),
        Ok(Ok(_)) => Err(ContactsServiceError::UnexpectedApiResponse),
        Ok(Err(error)) => Err(error),
        Err(lost) => Err(ContactsServiceError::TransportChannelError(lost)),
    }
}

/// Reads the reply to `RemoveContact`: the contact that was removed.
pub fn read_removed(reply: ServiceReply) -> (result: Result<Contact, ContactsServiceError>)
    ensures
        result == (match reply {
            Ok(Ok(ContactsServiceResponse::ContactRemoved(contact))) => Ok::<
                Contact,
                ContactsServiceError,
            >(contact),
            Ok(Ok(_)) => Err::<Contact, ContactsServiceError>(
                ContactsServiceError::UnexpectedApiResponse,
            ),
            _ => Err::<Contact, ContactsServiceError>(failure_of(reply)->0),
        }),
{
    match reply {
        Ok(Ok(ContactsServiceResponse::ContactRemoved(contact))) => Ok(contact),
        Ok(Ok(_)) => Err(ContactsServiceError::UnexpectedApiResponse),
        Ok(Err(error)) => Err(error),
        Err(lost) => Err(ContactsServiceError::TransportChannelError(lost)),
    }
}

/// Reads the reply to `GetContactOnlineStatus`: the status that the service
/// makes of the time a contact was last seen.
pub fn read_online_status(reply: ServiceReply) -> (result: Result<
    ContactOnlineStatus,
    ContactsServiceError,
>)
    ensures
        result == (match reply {
            Ok(Ok(ContactsServiceResponse::OnlineStatus(status))) => Ok::<
                ContactOnlineStatus,
                ContactsServiceError,
            >(status),
            Ok(Ok(_)) => Err::<ContactOnlineStatus, ContactsServiceError>(
                ContactsServiceError::UnexpectedApiResponse,
            ),
            _ => Err::<ContactOnlineStatus, ContactsServiceError>(failure_of(reply)->0),
        }),
{
    match reply {
        Ok(Ok(ContactsServiceResponse::OnlineStatus(status))) => Ok(status),
        Ok(Ok(_)) => Err(ContactsServiceError::UnexpectedApiResponse),
        Ok(Err(error)) => Err(error),
        Err(lost) => Err(ContactsServiceError::TransportChannelError(lost)),
    }
}

} // verus!
