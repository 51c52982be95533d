use proxyster::client::{
    check_proxies_file, proxies_to_write, subcommand, subcommand_outcome, ClientCommand,
};
use proxyster::daemon::handle_message;
use proxyster::filters::filter_all;
use proxyster::protocol::message_is_readable;
use proxyster::protocol::{proxies_message, read_message, request_message, ProtocolMessageHeader};

#[test]
fn header_words() {
    assert_eq!(ProtocolMessageHeader::RequesProxies.as_str(), "REQUEST_PROXIES");
    assert_eq!(ProtocolMessageHeader::Goodbye.as_str(), "GOODBYE");
    assert_eq!(ProtocolMessageHeader::Processing.as_str(), "PROCESSING");
    assert_eq!(ProtocolMessageHeader::Done.as_str(), "DONE");
    assert_eq!(ProtocolMessageHeader::Proxies.as_str(), "PROXIES");
}

#[test]
fn header_from_word_roundtrip() {
    let all = [
        ProtocolMessageHeader::RequesProxies,
        ProtocolMessageHeader::Goodbye,
        ProtocolMessageHeader::Processing,
        ProtocolMessageHeader::Done,
        ProtocolMessageHeader::Proxies,
    ];
    for h in all.iter() {
        assert!(ProtocolMessageHeader::from(h.as_str()) == *h);
    }
}

#[test]
fn header_equality_is_identity() {
    assert!(ProtocolMessageHeader::Done == ProtocolMessageHeader::Done);
    assert!(ProtocolMessageHeader::Done != ProtocolMessageHeader::Proxies);
    assert!(ProtocolMessageHeader::Goodbye != ProtocolMessageHeader::Processing);
}

#[test]
fn read_request_message() {
    let (h, body) = read_message("REQUEST_PROXIES ").unwrap();
    assert!(h == ProtocolMessageHeader::RequesProxies);
    assert_eq!(body, "");
    let (h, body) = read_message("REQUEST_PROXIES").unwrap();
    assert!(h == ProtocolMessageHeader::RequesProxies);
    assert_eq!(body, "");
}

#[test]
fn read_proxies_message_takes_second_field() {
    let (h, body) = read_message("PROXIES 1.2.3.4:80\n5.6.7.8:90").unwrap();
    assert!(h == ProtocolMessageHeader::Proxies);
    assert_eq!(body, "1.2.3.4:80\n5.6.7.8:90");
    let (_, body) = read_message("PROXIES a b c").unwrap();
    assert_eq!(body, "a");
    let (_, body) = read_message("PROXIES ").unwrap();
    assert_eq!(body, "");
}

#[test]
fn read_other_headers_is_an_error() {
    assert_eq!(
        read_message("DONE").err(),
        Some("Unable to decode message (Not yet implemented)")
    );
    assert_eq!(
        read_message("GOODBYE now").err(),
        Some("Unable to decode message (Not yet implemented)")
    );
    assert!(read_message("PROCESSING").is_err());
}

#[test]
fn built_messages() {
    assert_eq!(request_message(), "REQUEST_PROXIES ");
    let proxies = vec!["1.2.3.4:80".to_string(), "5.6.7.8:90".to_string()];
    assert_eq!(proxies_message(&proxies), "PROXIES 1.2.3.4:80\n5.6.7.8:90");
    assert_eq!(proxies_message(&Vec::new()), "PROXIES ");
}

#[test]
fn proxies_message_roundtrip() {
    let proxies = vec!["1.2.3.4:80".to_string(), "5.6.7.8:90".to_string()];
    let msg = proxies_message(&proxies);
    let (h, body) = read_message(&msg).unwrap();
    assert!(h == ProtocolMessageHeader::Proxies);
    assert_eq!(body, proxies.join("\n"));
}

#[test]
fn daemon_answers_request_with_proxies() {
    let proxies = vec!["1.2.3.4:80".to_string(), "5.6.7.8:90".to_string()];
    let reply = handle_message(&request_message(), &proxies);
    assert_eq!(reply, "PROXIES 1.2.3.4:80\n5.6.7.8:90");
    assert_eq!(proxies_to_write(&reply), Some("1.2.3.4:80\n5.6.7.8:90".to_string()));
}

#[test]
fn daemon_answers_other_messages_with_nothing() {
    let proxies = vec!["1.2.3.4:80".to_string()];
    assert_eq!(handle_message("PROXIES x", &proxies), "");
    assert_eq!(handle_message("DONE", &proxies), "");
}

#[test]
fn client_keeps_only_proxies_messages() {
    assert_eq!(proxies_to_write("REQUEST_PROXIES "), None);
    assert_eq!(proxies_to_write("DONE"), None);
    assert_eq!(proxies_to_write("PROXIES a"), Some("a".to_string()));
}

#[test]
fn client_subcommands() {
    assert_eq!(subcommand(Some("find")), Ok(ClientCommand::Find));
    assert_eq!(subcommand(Some("read")), Ok(ClientCommand::Read));
    assert_eq!(subcommand(Some("other")), Err("No subcommand was used"));
    assert_eq!(subcommand(None), Err("No subcommand was used"));
}

#[test]
fn client_outcomes() {
    assert_eq!(subcommand_outcome(ClientCommand::Find, Ok(())), Ok(()));
    assert_eq!(
        subcommand_outcome(ClientCommand::Find, Err("Could not parse url")),
        Err("Could not parse url")
    );
    assert_eq!(
        subcommand_outcome(ClientCommand::Read, Err("proxies file path should be a file and not a directory")),
        Err("Could not read proxies")
    );
    assert_eq!(subcommand_outcome(ClientCommand::Read, Ok(())), Ok(()));
}

#[test]
fn client_proxies_file_check() {
    assert_eq!(check_proxies_file(false, false), Ok(()));
    assert_eq!(check_proxies_file(true, true), Ok(()));
    assert_eq!(
        check_proxies_file(true, false),
        Err("proxies file path should be a file and not a directory")
    );
}

#[test]
fn header_lookup_by_word() {
    assert!(ProtocolMessageHeader::named("DONE") == Some(ProtocolMessageHeader::Done));
    assert!(ProtocolMessageHeader::named("done").is_none());
    assert!(ProtocolMessageHeader::named("").is_none());
}

#[test]
fn readable_messages() {
    assert!(message_is_readable("REQUEST_PROXIES "));
    assert!(message_is_readable("PROXIES a"));
    assert!(message_is_readable("PROXIES "));
    assert!(!message_is_readable("PROXIES"));
    assert!(message_is_readable("GOODBYE"));
    assert!(!message_is_readable("HELLO there"));
    assert!(!message_is_readable(""));
}

#[test]
fn client_reads_back_served_proxies() {
    let proxies = vec!["1.2.3.4:80".to_string(), "5.6.7.8:90".to_string()];
    let reply = handle_message(&request_message(), &proxies);
    let body = proxies_to_write(&reply).unwrap();
    assert_eq!(filter_all(vec![body]), proxies);
}
