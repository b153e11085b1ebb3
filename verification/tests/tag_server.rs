use mtp_audioplayer::name_set::NameSet;
use mtp_audioplayer::open_pipe::connection::{
    Message, MessageVariant, ParamWrapperCap, SubscribeTagParams, WriteTagParams, WriteTagValue,
};
use mtp_audioplayer::open_pipe::tag_server::TagServer;

fn notified(msg: &Message) -> Vec<(String, String)> {
    match &msg.message {
        MessageVariant::NotifySubscribeTag(p) => p
            .params
            .tags
            .iter()
            .map(|t| (t.data.name.clone(), t.data.value.clone()))
            .collect(),
        other => panic!("Unexpected message: {:?}", other),
    }
}

#[test]
fn test_subscribe() {
    let mut server = TagServer::new(false);
    let mut notifications = NameSet::new();
    server.set_tag_value("Tag0", "0", &mut notifications);
    server.set_tag_value("Tag1", "1", &mut notifications);
    let dropped = NameSet::new();

    let reply = server.subscribe(&vec!["Tag0".to_string(), "Tag1".to_string()], "dsjalk");
    println!("Notify: {:?}", reply);
    assert_eq!(reply.client_cookie, "dsjalk");
    assert_eq!(
        notified(&reply),
        vec![
            ("Tag0".to_string(), "0".to_string()),
            ("Tag1".to_string(), "1".to_string())
        ]
    );
    server.set_tag_value("Tag1", "2", &mut notifications);
    let sent = server.send_tag_notifications(&notifications, None, &dropped);
    assert_eq!(sent.len(), 1);
    for msg in &sent {
        println!("Notify: {:?}", msg);
    }
    assert_eq!(sent[0].client_cookie, "dsjalk");
    assert_eq!(
        notified(&sent[0]),
        vec![
            ("Tag0".to_string(), "0".to_string()),
            ("Tag1".to_string(), "2".to_string())
        ]
    );
    let reply = server.unsubscribe("dsjalk");
    assert!(matches!(reply.message, MessageVariant::NotifyUnsubscribeTag));
}

#[test]
fn unsubscribe_without_subscription_is_error_4() {
    let mut server = TagServer::new(false);
    let reply = server.unsubscribe("nobody");
    assert_eq!(reply.client_cookie, "nobody");
    match reply.message {
        MessageVariant::ErrorUnsubscribeTag(e) => {
            assert_eq!(e.error_code, 4);
            assert_eq!(e.error_description, "No matching subscription");
            assert_eq!(e.to_string(), "No matching subscription (0x00000004)");
        }
        other => panic!("Unexpected message: {:?}", other),
    }
}

#[test]
fn populate_makes_unknown_tags_with_value_zero() {
    let mut server = TagServer::new(true);
    let reply = server.subscribe(&vec!["A".to_string(), "B".to_string()], "c1");
    assert_eq!(
        notified(&reply),
        vec![
            ("A".to_string(), "0".to_string()),
            ("B".to_string(), "0".to_string())
        ]
    );
    match &reply.message {
        MessageVariant::NotifySubscribeTag(p) => {
            assert_eq!(p.params.tags[0].data.quality, "Good");
            assert_eq!(p.params.tags[0].data.quality_code, 192);
            assert_eq!(p.params.tags[0].error.error_code, 0);
        }
        _ => unreachable!(),
    }
    let mut plain = TagServer::new(false);
    let reply = plain.subscribe(&vec!["A".to_string()], "c1");
    assert!(notified(&reply).is_empty());
}

#[test]
fn write_notifies_the_other_subscribers_only() {
    let mut server = TagServer::new(true);
    server.subscribe(&vec!["A".to_string()], "writer");
    server.subscribe(&vec!["A".to_string()], "reader");
    server.subscribe(&vec!["B".to_string()], "elsewhere");
    server.subscribe(&vec![], "everything");
    let mut outbox = Vec::new();
    let dropped = NameSet::new();
    let msg = Message {
        message: MessageVariant::WriteTag(ParamWrapperCap {
            params: WriteTagParams {
                tags: vec![WriteTagValue {
                    name: "A".to_string(),
                    value: "5".to_string(),
                }],
            },
        }),
        client_cookie: "writer".to_string(),
    };
    let reply = server.handle_message(msg, &mut outbox, &dropped).unwrap();
    assert_eq!(reply.client_cookie, "writer");
    match reply.message {
        MessageVariant::NotifyWriteTag(p) => {
            assert_eq!(p.params.tags.len(), 1);
            assert_eq!(p.params.tags[0].name, "A");
            assert_eq!(p.params.tags[0].error.error_code, 0);
        }
        other => panic!("Unexpected message: {:?}", other),
    }
    let cookies: Vec<&str> = outbox.iter().map(|m| m.client_cookie.as_str()).collect();
    assert_eq!(cookies, vec!["reader", "everything"]);
    assert_eq!(
        notified(&outbox[0]),
        vec![("A".to_string(), "5".to_string())]
    );
    assert_eq!(
        notified(&outbox[1]),
        vec![
            ("A".to_string(), "5".to_string()),
            ("B".to_string(), "0".to_string())
        ]
    );
}

#[test]
fn dropped_clients_lose_their_subscription() {
    let mut server = TagServer::new(true);
    server.subscribe(&vec!["A".to_string()], "gone");
    server.subscribe(&vec!["A".to_string()], "here");
    let mut changed = NameSet::new();
    server.set_tag_value("A", "1", &mut changed);
    let mut dropped = NameSet::new();
    dropped.insert("gone");
    let sent = server.send_tag_notifications(&changed, None, &dropped);
    assert_eq!(sent.len(), 1);
    assert_eq!(sent[0].client_cookie, "here");
    let reply = server.unsubscribe("gone");
    assert!(matches!(
        reply.message,
        MessageVariant::ErrorUnsubscribeTag(_)
    ));
}

#[test]
fn handle_message_answers_requests_only() {
    let mut server = TagServer::new(true);
    let mut outbox = Vec::new();
    let dropped = NameSet::new();
    let subscribe = Message {
        message: MessageVariant::SubscribeTag(ParamWrapperCap {
            params: SubscribeTagParams {
                tags: vec!["T".to_string()],
            },
        }),
        client_cookie: "c".to_string(),
    };
    let reply = server.handle_message(subscribe, &mut outbox, &dropped).unwrap();
    assert_eq!(notified(&reply), vec![("T".to_string(), "0".to_string())]);
    let other = Message {
        message: MessageVariant::NotifyUnsubscribeTag,
        client_cookie: "c".to_string(),
    };
    assert!(server.handle_message(other, &mut outbox, &dropped).is_none());
    let unsubscribe = Message {
        message: MessageVariant::UnsubscribeTag,
        client_cookie: "c".to_string(),
    };
    let reply = server.handle_message(unsubscribe, &mut outbox, &dropped).unwrap();
    assert!(matches!(reply.message, MessageVariant::NotifyUnsubscribeTag));
    assert!(outbox.is_empty());
}

#[test]
fn the_answers_of_the_tag_server_carry_their_outcomes() {
    let mut server = TagServer::new(false);
    let dropped = NameSet::new();
    let mut outbox: Vec<Message> = Vec::new();
    let answer = server
        .handle_message(
            Message {
                message: MessageVariant::UnsubscribeTag,
                client_cookie: "nobody".to_string(),
            },
            &mut outbox,
            &dropped,
        )
        .unwrap();
    assert_eq!(answer.client_cookie, "nobody");
    match answer.message {
        MessageVariant::ErrorUnsubscribeTag(e) => {
            assert_eq!(e.error_code, 4);
            assert_eq!(e.error_description, "No matching subscription");
        }
        other => panic!("Unexpected message: {:?}", other),
    }
    let answer = server
        .handle_message(
            Message {
                message: MessageVariant::WriteTag(ParamWrapperCap {
                    params: WriteTagParams {
                        tags: vec![
                            WriteTagValue {
                                name: "B".to_string(),
                                value: "1".to_string(),
                            },
                            WriteTagValue {
                                name: "A".to_string(),
                                value: "2".to_string(),
                            },
                            WriteTagValue {
                                name: "B".to_string(),
                                value: "3".to_string(),
                            },
                        ],
                    },
                }),
                client_cookie: "writer".to_string(),
            },
            &mut outbox,
            &dropped,
        )
        .unwrap();
    assert_eq!(answer.client_cookie, "writer");
    match answer.message {
        MessageVariant::NotifyWriteTag(p) => {
            let names: Vec<&str> = p.params.tags.iter().map(|t| t.name.as_str()).collect();
            assert_eq!(names, vec!["B", "A", "B"]);
            assert!(p.params.tags.iter().all(|t| t.error.error_code == 0));
            assert!(p
                .params
                .tags
                .iter()
                .all(|t| t.error.error_description.is_empty()));
        }
        other => panic!("Unexpected message: {:?}", other),
    }
    let reply = server
        .handle_message(
            Message {
                message: MessageVariant::SubscribeTag(ParamWrapperCap {
                    params: SubscribeTagParams {
                        tags: vec!["A".to_string(), "B".to_string()],
                    },
                }),
                client_cookie: "reader".to_string(),
            },
            &mut outbox,
            &dropped,
        )
        .unwrap();
    match reply.message {
        MessageVariant::NotifySubscribeTag(p) => {
            assert_eq!(p.params.tags.len(), 2);
            assert_eq!(p.params.tags[1].data.value, "3");
            assert!(p.params.tags.iter().all(|t| t.error.error_code == 0));
            assert!(p
                .params
                .tags
                .iter()
                .all(|t| t.error.error_description.is_empty()));
            assert_eq!(p.params.tags[0].time_stamp, p.params.tags[1].time_stamp);
        }
        other => panic!("Unexpected message: {:?}", other),
    }
}
