use arson::codec::{decode_client, encode_client, ClientMessage, CommonMessage, ServerMessage};
use arson::json::JsonField;
use arson::registry::{Direction, SharerRegistry};
use arson::session::{
    handle_server_message, match_user_command_with_connection, perform_download_file, perform_rename,
    perform_text, perform_upload_file, Command, CommandError, Effect,
};

#[test]
fn upload_agreed_sends_the_file() {
    let mut reg: SharerRegistry<Vec<u8>> = SharerRegistry::new();
    for _ in 0..7 {
        reg.free_id();
    }
    let content = vec![10u8, 20, 30, 40, 50];
    let request = perform_upload_file(&mut reg, "a.txt", "/tmp/a.txt", content.clone(), 5);
    assert_eq!(request, Ok(ClientMessage::RequestFileUpload { name: "a.txt".to_string(), size: 5, id: 7 }));
    let effect = handle_server_message(&mut reg, ServerMessage::AgreeFileUpload { id: 7 });
    let sharer = match effect {
        Effect::SendFile { sharer } => sharer,
        _ => panic!("expected the file to be sent"),
    };
    assert_eq!(sharer.id, 7);
    assert_eq!(sharer.direction, Direction::Upload);
    assert!(!reg.contains_id(7));
    let mut sent = Vec::new();
    for piece in sharer.handle.chunks(2) {
        let m = ClientMessage::Common { common: CommonMessage::Chunk { data: piece.to_vec(), id: 7 } };
        match decode_client(&encode_client(&m)) {
            Ok(ClientMessage::Common { common: CommonMessage::Chunk { data, id } }) => {
                assert_eq!(id, 7);
                sent.extend(data);
            }
            _ => panic!("chunk did not survive the wire"),
        }
    }
    assert_eq!(sent, content);
}

#[test]
fn download_agreed_then_completed() {
    let mut reg: SharerRegistry<u32> = SharerRegistry::new();
    let request = perform_download_file(&mut reg, "b.txt", "/tmp/b.txt", 99);
    assert_eq!(request, Ok(ClientMessage::RequestFileDownload { name: "b.txt".to_string() }));
    let reply = handle_server_message(
        &mut reg,
        ServerMessage::AgreeFileDownload { name: "b.txt".to_string(), size: 3, id: 9 },
    );
    assert!(matches!(reply, Effect::Reply { reply: ClientMessage::AgreeFileDownload { id: 9 } }));
    assert!(reg.contains_id(9));
    let chunk = ServerMessage::Common { common: CommonMessage::Chunk { data: vec![1, 2, 3], id: 9 } };
    let mut file: Vec<u8> = Vec::new();
    match handle_server_message(&mut reg, chunk) {
        Effect::FinishDownload { sharer, offset, data } => {
            assert_eq!(offset, 0);
            file.extend(data);
            assert_eq!(sharer.name, "b.txt");
            assert_eq!(sharer.path, "/tmp/b.txt");
            assert_eq!(sharer.handle, 99);
            assert_eq!(sharer.received, 3);
        }
        _ => panic!("expected the download to finish"),
    }
    assert_eq!(file, vec![1, 2, 3]);
    assert!(!reg.contains_id(9));
}

#[test]
fn download_in_two_chunks_writes_then_finishes() {
    let mut reg: SharerRegistry<u32> = SharerRegistry::new();
    assert!(perform_download_file(&mut reg, "d", "/tmp/d", 1).is_ok());
    handle_server_message(&mut reg, ServerMessage::AgreeFileDownload { name: "d".to_string(), size: 4, id: 2 });
    let first = handle_server_message(
        &mut reg,
        ServerMessage::Common { common: CommonMessage::Chunk { data: vec![1, 2], id: 2 } },
    );
    assert!(matches!(first, Effect::WriteChunk { id: 2, offset: 0, ref data } if *data == vec![1, 2]));
    let second = handle_server_message(
        &mut reg,
        ServerMessage::Common { common: CommonMessage::Chunk { data: vec![3, 4, 5], id: 2 } },
    );
    assert!(matches!(second, Effect::FinishDownload { offset: 2, ref data, .. } if *data == vec![3, 4]));
}

#[test]
fn download_declined_before_an_id() {
    let mut reg: SharerRegistry<u32> = SharerRegistry::new();
    assert!(perform_download_file(&mut reg, "c.txt", "/tmp/c.txt", 5).is_ok());
    let effect = handle_server_message(
        &mut reg,
        ServerMessage::DeclineFileDownload { name: "c.txt".to_string(), reason: "not found".to_string() },
    );
    match effect {
        Effect::DownloadDeclined { name, reason } => {
            assert_eq!(name, "c.txt");
            assert_eq!(reason, "not found");
        }
        _ => panic!("expected the decline to be reported"),
    }
    assert!(!reg.contains_pending("c.txt"));
    assert!(!reg.contains_id(0));
}

#[test]
fn upload_declined_reports_the_reason() {
    let mut reg: SharerRegistry<u32> = SharerRegistry::new();
    assert!(perform_upload_file(&mut reg, "e", "/tmp/e", 3, 10).is_ok());
    let effect = handle_server_message(&mut reg, ServerMessage::DeclineFileUpload { id: 0, reason: "busy".to_string() });
    assert!(matches!(effect, Effect::UploadDeclined { ref sharer, ref reason } if sharer.name == "e" && reason == "busy"));
    assert!(!reg.contains_id(0));
}

#[test]
fn late_messages_are_no_ops() {
    let mut reg: SharerRegistry<u32> = SharerRegistry::new();
    assert!(matches!(handle_server_message(&mut reg, ServerMessage::AgreeFileUpload { id: 3 }), Effect::Nothing));
    assert!(matches!(
        handle_server_message(&mut reg, ServerMessage::DeclineFileUpload { id: 3, reason: "x".to_string() }),
        Effect::Nothing
    ));
    assert!(matches!(
        handle_server_message(&mut reg, ServerMessage::Common { common: CommonMessage::Chunk { data: vec![1], id: 3 } }),
        Effect::Nothing
    ));
    let reply = handle_server_message(
        &mut reg,
        ServerMessage::AgreeFileDownload { name: "never".to_string(), size: 1, id: 4 },
    );
    assert!(matches!(reply, Effect::Reply { reply: ClientMessage::AgreeFileDownload { id: 4 } }));
    assert!(!reg.contains_id(4));
}

#[test]
fn download_offer_for_a_held_id_is_left_unanswered() {
    let mut reg: SharerRegistry<u32> = SharerRegistry::new();
    assert!(perform_download_file(&mut reg, "one", "/tmp/one", 1).is_ok());
    assert!(perform_download_file(&mut reg, "two", "/tmp/two", 2).is_ok());
    let first = handle_server_message(&mut reg, ServerMessage::AgreeFileDownload { name: "one".to_string(), size: 2, id: 5 });
    assert!(matches!(first, Effect::Reply { reply: ClientMessage::AgreeFileDownload { id: 5 } }));
    let second = handle_server_message(&mut reg, ServerMessage::AgreeFileDownload { name: "two".to_string(), size: 2, id: 5 });
    assert!(matches!(second, Effect::Nothing));
    assert!(reg.contains_pending("two"));
    assert_eq!(reg.handle(5), Some(&1));
}

#[test]
fn download_declined_for_an_unknown_name_changes_nothing() {
    let mut reg: SharerRegistry<u32> = SharerRegistry::new();
    assert!(perform_download_file(&mut reg, "keep", "/tmp/keep", 1).is_ok());
    let effect = handle_server_message(
        &mut reg,
        ServerMessage::DeclineFileDownload { name: "other".to_string(), reason: "no".to_string() },
    );
    assert!(matches!(effect, Effect::DownloadDeclined { .. }));
    assert!(reg.contains_pending("keep"));
}

#[test]
fn unrecognized_messages_are_shown() {
    let mut reg: SharerRegistry<u32> = SharerRegistry::new();
    let joined = || {
        vec![
            ("type".to_string(), JsonField::Str("Joined".to_string())),
            ("who".to_string(), JsonField::Str("ann".to_string())),
        ]
    };
    let effect = handle_server_message(
        &mut reg,
        ServerMessage::Unrecognized { tag: "Joined".to_string(), fields: joined() },
    );
    match effect {
        Effect::Show { message: ServerMessage::Unrecognized { tag, fields: shown } } => {
            assert_eq!(tag, "Joined");
            assert_eq!(shown, joined());
        }
        _ => panic!("expected the message to be shown"),
    }
}

#[test]
fn same_name_cannot_be_requested_twice() {
    let mut reg: SharerRegistry<u32> = SharerRegistry::new();
    assert!(perform_download_file(&mut reg, "f", "/tmp/f", 1).is_ok());
    assert_eq!(perform_download_file(&mut reg, "f", "/tmp/f2", 2), Err(CommandError::NameInUse));
    assert_eq!(perform_upload_file(&mut reg, "f", "/tmp/f3", 3, 1), Err(CommandError::NameInUse));
}

#[test]
fn text_and_rename_messages() {
    assert_eq!(perform_text("hi there"), ClientMessage::Text { text: "hi there".to_string() });
    assert_eq!(perform_rename("zed"), ClientMessage::Rename { new_name: "zed".to_string() });
}

#[test]
fn commands_are_dispatched() {
    let mut reg: SharerRegistry<u32> = SharerRegistry::new();
    assert_eq!(
        match_user_command_with_connection(Command::Text { text: "hey".to_string() }, &mut reg),
        Ok(Some(ClientMessage::Text { text: "hey".to_string() }))
    );
    assert_eq!(
        match_user_command_with_connection(Command::Rename { new_name: "al".to_string() }, &mut reg),
        Ok(Some(ClientMessage::Rename { new_name: "al".to_string() }))
    );
    let upload = Command::UploadFile { name: "u".to_string(), path: "/tmp/u".to_string(), file: 1, size: 12 };
    assert_eq!(
        match_user_command_with_connection(upload, &mut reg),
        Ok(Some(ClientMessage::RequestFileUpload { name: "u".to_string(), size: 12, id: 0 }))
    );
    assert!(reg.contains_id(0));
    let download = Command::DownloadFile { name: "d".to_string(), path: "/tmp/d".to_string(), file: 2 };
    assert_eq!(
        match_user_command_with_connection(download, &mut reg),
        Ok(Some(ClientMessage::RequestFileDownload { name: "d".to_string() }))
    );
    assert!(reg.contains_pending("d"));
    let again = Command::DownloadFile { name: "d".to_string(), path: "/tmp/d2".to_string(), file: 3 };
    assert_eq!(match_user_command_with_connection(again, &mut reg), Err(CommandError::NameInUse));
    for quiet in [Command::End, Command::Nothing, Command::Connect { address: "x:1".to_string() }] {
        assert_eq!(match_user_command_with_connection(quiet, &mut reg), Ok(None));
    }
}
