use chrono::NaiveDate;
use comms_dht::contacts::{
    read_contact, read_contacts, read_online_status, read_removed, read_saved, CommsPublicKey,
    Contact, ContactMessageType, ContactOnlineStatus, ContactsLivenessData, ContactsLivenessEvent,
    ContactsServiceError, ContactsServiceRequest, ContactsServiceResponse, Timestamp,
    TransportChannelError,
};
use comms_dht::peer::NodeId;
use comms_dht::text::{bytes_to_hex, number_to_hex};

fn key() -> CommsPublicKey {
    CommsPublicKey { bytes: vec![0x00, 0x0f, 0xa5, 0xff] }
}

/// 2022-03-04 05:06:07 UTC
fn seen_at() -> Timestamp {
    let time = NaiveDate::from_ymd_opt(2022, 3, 4).unwrap().and_hms_opt(5, 6, 7).unwrap().and_utc();
    Timestamp { secs: time.timestamp(), nanos: time.timestamp_subsec_nanos() }
}

fn contact(alias: &str) -> Contact {
    Contact {
        alias: alias.to_string(),
        public_key: key(),
        node_id: NodeId::new(7),
        last_seen: None,
        latency: Some(12),
    }
}

#[test]
fn hex_renderings() {
    assert_eq!(bytes_to_hex(&vec![]), "");
    assert_eq!(bytes_to_hex(&vec![0x00, 0x0f, 0xa5, 0xff]), "000fa5ff");
    assert_eq!(number_to_hex(0, 4), "0000");
    assert_eq!(number_to_hex(0x1a2b, 4), "1a2b");
    assert_eq!(number_to_hex(0x1a2b, 2), "2b");
    assert_eq!(number_to_hex(u128::MAX, 32), "f".repeat(32));
    assert_eq!(number_to_hex(0xdead_beef, 32), format!("{:032x}", 0xdead_beefu32));
}

#[test]
fn liveness_data_keeps_what_it_was_given() {
    let seen = seen_at();
    assert_eq!(seen, Timestamp { secs: 1646370367, nanos: 0 });
    let mut data = ContactsLivenessData::new(
        key(),
        NodeId::new(0xabc),
        Some(42),
        Some(seen),
        ContactMessageType::Ping,
        ContactOnlineStatus::Online,
    );
    assert_eq!(data.public_key(), &key());
    assert_eq!(data.node_id(), &NodeId::new(0xabc));
    assert_eq!(data.latency(), Some(42));
    assert_eq!(data.last_ping_pong_received(), Some(seen));
    assert_eq!(data.message_type(), ContactMessageType::Ping);
    assert_eq!(data.online_status(), ContactOnlineStatus::Online);
    data.set_offline();
    assert_eq!(data.online_status(), ContactOnlineStatus::Offline);
    assert_eq!(data.latency(), Some(42));
    assert_eq!(data.last_ping_pong_received(), Some(seen));
    let event = ContactsLivenessEvent::StatusUpdated(Box::new(data.clone()));
    assert!(matches!(event, ContactsLivenessEvent::StatusUpdated(d) if *d == data));
}

fn seen_contact() -> ContactsLivenessData {
    ContactsLivenessData::new(
        key(),
        NodeId::new(0xabc),
        None,
        Some(seen_at()),
        ContactMessageType::Pong,
        ContactOnlineStatus::Online,
    )
}

#[test]
fn liveness_line_for_a_contact_that_was_seen() {
    assert_eq!(
        seen_contact().to_text(0),
        Some(
            "Liveness event 'Pong' for contact 000fa5ff (00000000000000000000000000000abc) last \
             seen 2022-03-04 05:06:07 is 'Online'\n"
                .to_string()
        )
    );
}

#[test]
fn liveness_line_shows_the_time_of_the_readers_clock() {
    let line = |offset| seen_contact().to_text(offset).unwrap();
    assert!(line(2 * 3600).contains("last seen 2022-03-04 07:06:07 is"));
    assert!(line(-6 * 3600).contains("last seen 2022-03-03 23:06:07 is"));
    assert!(line(19 * 3600 + 1).contains("last seen 2022-03-05 00:06:08 is"));
}

#[test]
fn liveness_line_is_missing_where_the_time_cannot_be_written() {
    // a clock cannot be a whole day ahead of UTC
    assert_eq!(seen_contact().to_text(86_400), None);
    assert_eq!(seen_contact().to_text(-86_400), None);
    let beyond = ContactsLivenessData::new(
        key(),
        NodeId::new(1),
        None,
        Some(Timestamp { secs: i64::MAX, nanos: 0 }),
        ContactMessageType::Ping,
        ContactOnlineStatus::Online,
    );
    assert_eq!(beyond.to_text(0), None);
    let odd = ContactsLivenessData::new(
        key(),
        NodeId::new(1),
        None,
        Some(Timestamp { secs: 0, nanos: 2_000_000_000 }),
        ContactMessageType::Ping,
        ContactOnlineStatus::Online,
    );
    assert_eq!(odd.to_text(0), None);
}

#[test]
fn report_line_takes_the_time_as_it_is_written() {
    assert_eq!(
        seen_contact().report_line("yesterday"),
        "Liveness event 'Pong' for contact 000fa5ff (00000000000000000000000000000abc) last seen \
         yesterday is 'Online'\n"
    );
}

#[test]
fn liveness_line_for_a_contact_that_was_never_seen() {
    let data = ContactsLivenessData::new(
        key(),
        NodeId::new(1),
        None,
        None,
        ContactMessageType::NoMessage,
        ContactOnlineStatus::NeverSeen,
    );
    let expected = "Liveness event 'NoMessage' for contact 000fa5ff \
                    (00000000000000000000000000000001)  - contact was never seen\n";
    assert_eq!(data.to_text(3600), Some(expected.to_string()));
    // the offset plays no part, not even one that no clock can have
    assert_eq!(data.to_text(86_400), Some(expected.to_string()));
    assert_eq!(data.report_line("ignored"), expected);
    assert_eq!(ContactMessageType::Ping.as_str(), "Ping");
    assert_eq!(ContactOnlineStatus::Offline.as_str(), "Offline");
}

#[test]
fn replies_are_read_by_the_request_they_answer() {
    assert_eq!(read_contact(Ok(Ok(ContactsServiceResponse::Contact(contact("a"))))), Ok(contact("a")));
    assert_eq!(
        read_contacts(Ok(Ok(ContactsServiceResponse::Contacts(vec![contact("a"), contact("b")])))),
        Ok(vec![contact("a"), contact("b")])
    );
    assert_eq!(read_saved(Ok(Ok(ContactsServiceResponse::ContactSaved))), Ok(()));
    assert_eq!(
        read_removed(Ok(Ok(ContactsServiceResponse::ContactRemoved(contact("gone"))))),
        Ok(contact("gone"))
    );
    assert_eq!(
        read_online_status(Ok(Ok(ContactsServiceResponse::OnlineStatus(ContactOnlineStatus::Online)))),
        Ok(ContactOnlineStatus::Online)
    );
}

#[test]
fn a_reply_that_does_not_fit_is_an_error() {
    let unexpected = Err(ContactsServiceError::UnexpectedApiResponse);
    assert_eq!(read_contact(Ok(Ok(ContactsServiceResponse::ContactSaved))), unexpected);
    assert_eq!(
        read_contact(Ok(Ok(ContactsServiceResponse::ContactRemoved(contact("a"))))),
        unexpected
    );
    assert_eq!(
        read_removed(Ok(Ok(ContactsServiceResponse::Contact(contact("a"))))),
        Err(ContactsServiceError::UnexpectedApiResponse)
    );
    assert_eq!(
        read_contacts(Ok(Ok(ContactsServiceResponse::ContactSaved))),
        Err(ContactsServiceError::UnexpectedApiResponse)
    );
    assert_eq!(
        read_saved(Ok(Ok(ContactsServiceResponse::Contacts(vec![])))),
        Err(ContactsServiceError::UnexpectedApiResponse)
    );
    assert_eq!(
        read_online_status(Ok(Ok(ContactsServiceResponse::ContactSaved))),
        Err(ContactsServiceError::UnexpectedApiResponse)
    );
}

#[test]
fn errors_of_the_service_and_of_the_exchange_are_passed_on() {
    assert_eq!(
        read_contact(Ok(Err(ContactsServiceError::ContactNotFound))),
        Err(ContactsServiceError::ContactNotFound)
    );
    assert_eq!(
        read_contact(Err(TransportChannelError::ChannelClosed)),
        Err(ContactsServiceError::TransportChannelError(TransportChannelError::ChannelClosed))
    );
    assert_eq!(
        read_saved(Err(TransportChannelError::Canceled)),
        Err(ContactsServiceError::TransportChannelError(TransportChannelError::Canceled))
    );
    assert_eq!(
        read_contacts(Ok(Err(ContactsServiceError::ContactNotFound))),
        Err(ContactsServiceError::ContactNotFound)
    );
    assert_eq!(
        read_removed(Err(TransportChannelError::Canceled)),
        Err(ContactsServiceError::TransportChannelError(TransportChannelError::Canceled))
    );
    assert_eq!(
        read_online_status(Ok(Err(ContactsServiceError::ContactNotFound))),
        Err(ContactsServiceError::ContactNotFound)
    );
    let request = ContactsServiceRequest::GetContact(key());
    assert!(matches!(request, ContactsServiceRequest::GetContact(k) if k == key()));
}
