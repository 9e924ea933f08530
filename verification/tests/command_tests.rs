use troposphere::channel::{resolve_channel_method, ChannelMethod};
use troposphere::cli::LogFormat;
use troposphere::command::{Command, CommandError, InputLine};
use troposphere::keymap::{bytes_clone, bytes_eq, KeyMap, StrMap};
use troposphere::locator::{Locator, SturdyRefLocator};
use troposphere::netlayer::{ConnectError, NetlayerManager};

#[test]
fn connect_command_parses() {
    let cmd = Command::from_str(&"connect 127.0.0.1:43456".to_string());
    match cmd {
        Ok(Command::Connect(loc)) => {
            assert_eq!(loc.designator, "127.0.0.1:43456");
            assert_eq!(loc.transport, "tcpip");
        }
        other => panic!("unexpected parse: {:?}", other),
    }
}

#[test]
fn connect_command_tolerates_extra_blanks() {
    let cmd = Command::from_str(&"  connect \t somewhere ".to_string());
    match cmd {
        Ok(Command::Connect(loc)) => assert_eq!(loc.designator, "somewhere"),
        other => panic!("unexpected parse: {:?}", other),
    }
}

#[test]
fn connect_without_designator_is_missing_argument() {
    match Command::from_str(&"connect".to_string()) {
        Err(CommandError::MissingArgument(cmd, what)) => {
            assert_eq!(cmd, "connect");
            assert_eq!(what, "designator");
        }
        other => panic!("unexpected parse: {:?}", other),
    }
}

#[test]
fn unknown_command_is_unrecognized_with_arguments() {
    match Command::from_str(&"frobnicate one two".to_string()) {
        Err(CommandError::Unrecognized(cmd, rest)) => {
            assert_eq!(cmd, "frobnicate");
            assert_eq!(rest, vec!["one".to_string(), "two".to_string()]);
        }
        other => panic!("unexpected parse: {:?}", other),
    }
}

#[test]
fn empty_input_is_unrecognized() {
    match Command::from_str(&"   ".to_string()) {
        Err(CommandError::Unrecognized(cmd, rest)) => {
            assert_eq!(cmd, "");
            assert!(rest.is_empty());
        }
        other => panic!("unexpected parse: {:?}", other),
    }
}

#[test]
fn log_format_names_round_trip() {
    for f in [LogFormat::Compact, LogFormat::Full, LogFormat::Pretty, LogFormat::Json] {
        assert_eq!(LogFormat::from_name(&f.name()), Some(f));
    }
    assert_eq!(LogFormat::Compact.name(), "compact");
    assert_eq!(LogFormat::from_name(&"verbose".to_string()), None);
}

#[test]
fn channel_method_symbols_resolve() {
    assert_eq!(resolve_channel_method(&b"send_msg".to_vec()), Some(ChannelMethod::SendMsg));
    assert_eq!(resolve_channel_method(&b"introduce".to_vec()), Some(ChannelMethod::Introduce));
    assert_eq!(resolve_channel_method(&b"set_name".to_vec()), None);
}

#[test]
fn netlayer_registry_selects_by_transport() {
    let mut nm = NetlayerManager::new();
    let loc = Locator::new("127.0.0.1:43456".to_string(), "tcpip".to_string());
    let binding = nm.register("tcpip".to_string(), vec![loc]);

    let dial = Locator::new("10.0.0.1:1".to_string(), "tcpip".to_string());
    assert_eq!(nm.request_connect(&dial), Ok(binding));

    let onion = Locator::new("x".to_string(), "onion".to_string());
    match nm.request_connect(&onion) {
        Err(ConnectError::UnregisteredTransport(name)) => assert_eq!(name, "onion"),
        other => panic!("unexpected result: {:?}", other),
    }
}

#[test]
fn netlayer_register_overwrites_the_binding() {
    let mut nm = NetlayerManager::new();
    let b1 = nm.register("tcpip".to_string(), Vec::new());
    let b2 = nm.register(
        "tcpip".to_string(),
        vec![Locator::new("here".to_string(), "tcpip".to_string())],
    );
    assert_ne!(b1, b2);
    let dial = Locator::new("y".to_string(), "tcpip".to_string());
    assert_eq!(nm.request_connect(&dial), Ok(b2));
    let published = nm.locators();
    assert_eq!(published.len(), 1);
    assert_eq!(published[0].designator, "here");
}

#[test]
fn sturdy_ref_pairs_locator_and_swiss() {
    let loc = Locator::new("host".to_string(), "tcpip".to_string());
    let sref = SturdyRefLocator::new(loc, vec![1u8; 16]);
    assert_eq!(sref.swiss, vec![1u8; 16]);
    assert_eq!(sref.locator.transport, "tcpip");
}

#[test]
fn byte_maps_bind_and_unbind() {
    let mut m: KeyMap<u64> = KeyMap::new();
    m.insert(vec![1, 2], 10);
    m.insert(vec![3], 20);
    m.insert(vec![1, 2], 30);
    assert_eq!(m.get(&vec![1, 2]), Some(&30));
    assert_eq!(m.get(&vec![3]), Some(&20));
    assert_eq!(m.len(), 2);
    assert_eq!(m.remove(&vec![1, 2]), Some(30));
    assert_eq!(m.get(&vec![1, 2]), None);
    assert!(m.contains_key(&vec![3]));

    let mut sm: StrMap<u64> = StrMap::new();
    sm.insert("a".to_string(), 1);
    sm.insert("a".to_string(), 2);
    assert_eq!(sm.get(&"a".to_string()), Some(&2));

    assert!(bytes_eq(&vec![1, 2], &vec![1, 2]));
    assert!(!bytes_eq(&vec![1, 2], &vec![1, 3]));
    assert_eq!(bytes_clone(&vec![5, 6]), vec![5, 6]);
}

#[test]
fn input_lines_split_commands_from_chat() {
    match troposphere::command::interpret_line(&"/connect here".to_string()) {
        InputLine::Dispatch(Ok(Command::Connect(loc))) => assert_eq!(loc.designator, "here"),
        other => panic!("unexpected interpretation: {:?}", other),
    }
    match troposphere::command::interpret_line(&"hello everyone".to_string()) {
        InputLine::Say(m) => assert_eq!(m, "hello everyone"),
        other => panic!("unexpected interpretation: {:?}", other),
    }
    match troposphere::command::interpret_line(&"/".to_string()) {
        InputLine::Say(m) => assert_eq!(m, "/"),
        other => panic!("unexpected interpretation: {:?}", other),
    }
}
