use std::cell::Cell;

use mineshaft::io_error::IoError;
use mineshaft::platform::android;
use mineshaft::platform::linux;
use mineshaft::platform::proc_fs::{
    has_text, port_needle, table_has_port, text_ends_with, trim, words_of,
};
use mineshaft::platform::processes::{
    game_name_list, is_one_of, mentions_any, proc_cmdline_matches, proc_comm_matches,
    proc_visible_matches, space_zeros, ProcEntry,
};
use mineshaft::platform::windows;
use mineshaft::platform::windows::{CommandOutcome, UdpRow, UdpTable};

const TABLE: &str = "  sl  local_address rem_address   st tx_queue rx_queue tr tm->when retrnsmt   uid  timeout inode\n\
             123: 0100007F:0035 00000000:0000 07 00000000:00000000 00:00000000 00000000  1000        0 12345 1 0000000000000000 0\n\
             124: 00000000:1D7F 00000000:0000 07 00000000:00000000 00:00000000 00000000  1000        0 12346 1 0000000000000000 0\n";

#[test]
fn parses_proc_net_udp_fixture() {
    // Port 53 (0x0035) is present.
    let needle = format!(":{:04X}", 53);
    assert_eq!(port_needle(53), needle);
    assert!(table_has_port(TABLE, &needle));

    // Port 9999 (0x270F) is absent.
    let needle = format!(":{:04X}", 9999);
    assert_eq!(port_needle(9999), needle);
    assert!(!table_has_port(TABLE, &needle));
}

#[test]
fn udp_port_bound_reflects_bind_state() {
    let port = 39_999;
    let header = "sl local_address\n".to_string();
    let bound = format!("{}1: 0100007F:9C3F 00000000:0000\n", header);
    assert!(!linux::udp_port_bound(port, Ok(Some(header.clone())), Ok(None)).unwrap());
    assert!(linux::udp_port_bound(port, Ok(Some(bound.clone())), Ok(None)).unwrap());
    assert!(linux::udp_port_bound(port, Ok(None), Ok(Some(bound.clone()))).unwrap());
    assert!(android::udp_port_bound(port, Ok(Some(header.clone())), Ok(Some(bound))).unwrap());
    assert!(!android::udp_port_bound(port, Ok(Some(header)), Ok(None)).unwrap());
}

#[test]
fn heading_and_remote_ports_do_not_count() {
    assert!(!table_has_port("1: 0:0035 0:0000", ":0035"));
    assert!(!table_has_port("heading\n1: 0:0000 0:0035", ":0035"));
    assert!(table_has_port("heading\n\t1:\u{3000}0:0035\r\n", ":0035"));
    assert!(!table_has_port("heading\nalone", ":0035"));
    assert!(!table_has_port("", ":0035"));
}

#[test]
fn written_table_is_read_back() {
    let fields = ["", "", "7:", "0100007F:1D7F", "00000000:0000", "07"];
    let line: String = fields.iter().map(|field| format!("{} ", field)).collect();
    assert_eq!(words_of(&line), ["7:", "0100007F:1D7F", "00000000:0000", "07"]);
    let table = format!("heading\n{}\n", line);
    for port in [0u16, 7551, 7552, 0xd7f, 65535] {
        assert_eq!(table_has_port(&table, &port_needle(port)), port == 7551);
    }
    assert_eq!(trim("Minecraft.Window\n"), "Minecraft.Window");
}

#[test]
fn unreadable_table_decides_where_none_before_it_does() {
    let denied = || Err(IoError::Other("permission denied".to_string()));
    let table = || Ok(Some(TABLE.to_string()));
    assert_eq!(linux::udp_port_bound(53, table(), denied()), Ok(true));
    let error = linux::udp_port_bound(53, denied(), table()).unwrap_err();
    assert_eq!(error.display(), "io error: permission denied");
    assert!(linux::udp_port_bound(54, table(), denied()).is_err());
    let error = android::udp_port_bound(54, table(), denied()).unwrap_err();
    assert_eq!(error.display(), "io error: permission denied");
}

#[test]
fn every_port_has_its_needle() {
    for port in [0u16, 9, 10, 255, 256, 4095, 7551, 0xabcd, 65535] {
        assert_eq!(port_needle(port), format!(":{:04X}", port));
    }
}

#[test]
fn text_helpers_agree_with_std() {
    for s in ["", " ", "a b", "\t x\u{a0}y \n", "one\u{2028}two\u{205f}", "\u{200b}z"] {
        let words: Vec<&str> = s.split_whitespace().collect();
        assert_eq!(words_of(s), words);
        assert_eq!(trim(s), s.trim());
    }
    for (s, part) in [("abc", ""), ("abc", "bc"), ("abc", "ac"), ("", "a"), ("aab", "ab")] {
        assert_eq!(has_text(s, part), s.contains(part));
        assert_eq!(text_ends_with(s, part), s.ends_with(part));
    }
    assert_eq!(space_zeros("a\0b\0"), "a b ");
}

fn process(name: &str, comm: Option<&str>, cmdline: Option<&[u8]>) -> ProcEntry {
    ProcEntry {
        name: name.to_string(),
        comm: comm.map(|s| s.to_string()),
        cmdline: cmdline.map(|b| b.to_vec()),
    }
}

#[test]
fn processes_are_found_by_command_name() {
    let names = game_name_list();
    assert_eq!(names.len(), 6);
    let matches = |e: ProcEntry| proc_comm_matches(Some(&vec![e]), &names);
    assert!(matches(process("12", Some("bedrock_server\n"), None)));
    assert!(!matches(process("12", Some("Bedrock_server\n"), None)));
    assert!(!matches(process("12", Some("bedrock_server2"), None)));
    assert!(!matches(process("self", Some("bedrock_server"), None)));
    assert!(!matches(process("12", None, Some(b"bedrock_server"))));
    assert!(!proc_comm_matches(None, &names));
}

#[test]
fn processes_are_found_by_command_line() {
    let names = game_name_list();
    let matches = |e: ProcEntry| proc_cmdline_matches(Some(&vec![e]), &names);
    assert!(matches(process("1", None, Some(b"wine\0C:\\MINECRAFT.Windows.EXE\0"))));
    assert!(matches(process("1", None, Some(b"\xffBedrock-Server\xff"))));
    assert!(!matches(process("1", None, Some(b"bedrock\0server"))));
    assert!(!matches(process("x1", None, Some(b"minecraft"))));
    assert!(!matches(process("1", Some("minecraft"), None)));
    assert!(!proc_cmdline_matches(None, &names));
    // A letter beyond ASCII is lowered too.
    let turkish = vec!["\u{c7}elik".to_string()];
    let line = "\u{e7}ELIK".as_bytes().to_vec();
    let entry = process("1", None, Some(&line));
    assert!(proc_cmdline_matches(Some(&vec![entry]), &turkish));
}

#[test]
fn linux_asks_for_processes_in_turn() {
    let game = vec![process("1", Some("minecraft"), None)];
    let line = vec![process("1", None, Some(b"minecraft"))];
    let none: Vec<ProcEntry> = vec![];
    assert!(linux::minecraft_process_running(Some(&game), None, None, None));
    assert!(linux::minecraft_process_running(None, Some(&line), None, None));
    assert!(!linux::minecraft_process_running(Some(&line), Some(&game), None, Some(false)));
    assert!(linux::minecraft_process_running(Some(&none), None, Some(true), None));
    assert!(linux::minecraft_process_running(None, None, Some(false), Some(true)));
    for (comm, search) in [(&game, false), (&none, true), (&none, false)] {
        let at_once = linux::minecraft_process_running(Some(comm), None, Some(search), None);
        let in_turn = linux::minecraft_process_running(Some(comm), None, None, None)
            || linux::minecraft_process_running(None, None, Some(search), None);
        assert_eq!(at_once, in_turn);
    }
    assert!(linux::command_succeeds(Some(true)));
    assert!(!linux::command_succeeds(None));
}

#[test]
fn android_takes_unknown_for_running() {
    let names = game_name_list();
    let hidden = vec![process("self", Some("minecraft"), None)];
    let other = vec![process("7", Some("init"), Some(b"/init"))];
    let game = vec![process("7", Some("init"), None), process("8", None, Some(b"Minecraft"))];
    assert_eq!(proc_visible_matches(None, &names), None);
    assert_eq!(proc_visible_matches(Some(&hidden), &names), None);
    assert_eq!(proc_visible_matches(Some(&other), &names), Some(false));
    assert_eq!(proc_visible_matches(Some(&game), &names), Some(true));
    assert!(android::minecraft_process_running(None));
    assert!(android::minecraft_process_running(Some(&hidden)));
    assert!(!android::minecraft_process_running(Some(&other)));
    assert!(android::minecraft_process_running(Some(&game)));
}

#[test]
fn names_are_looked_up() {
    let names = vec!["one".to_string(), "two".to_string()];
    assert!(is_one_of("two", &names));
    assert!(!is_one_of("tw", &names));
    assert!(mentions_any("a two b", &names));
    assert!(!mentions_any("three", &names));
}

#[test]
fn protect_socket_callback_lifecycle() {
    let mut slot: android::ProtectSlot<Box<dyn Fn(i32) -> bool>> = android::protect_socket_slot();
    android::clear_protect_socket_callback(&mut slot);
    assert!(android::protect_socket(&slot, 42));

    let seen = std::rc::Rc::new(Cell::new(-1));
    let recorder = seen.clone();
    android::set_protect_socket_callback(
        &mut slot,
        Box::new(move |fd| {
            recorder.set(fd);
            fd % 2 == 0
        }),
    );

    assert!(android::protect_socket(&slot, 8));
    assert_eq!(seen.get(), 8);
    assert!(!android::protect_socket(&slot, 7));
    assert_eq!(seen.get(), 7);

    android::clear_protect_socket_callback(&mut slot);
    assert!(android::protect_socket(&slot, 42));
}

#[test]
fn windows_ports_are_in_network_order() {
    let rows = || {
        UdpTable::Rows(vec![
            UdpRow { local_port: 0x7f1d, owning_pid: 11 },
            UdpRow { local_port: 0xffff_3500, owning_pid: 22 },
            UdpRow { local_port: 0x3500, owning_pid: 33 },
        ])
    };
    assert_eq!(windows::owner_pid_of_port(7551, rows()), Ok(Some(11)));
    assert_eq!(windows::owner_pid_of_port(53, rows()), Ok(Some(22)));
    assert_eq!(windows::owner_pid_of_port(54, rows()), Ok(None));
    assert_eq!(windows::udp_port_bound(53, rows()), Ok(true));
    assert_eq!(windows::udp_port_bound(54, rows()), Ok(false));
    assert_eq!(windows::udp_port_bound_impl(53, UdpTable::Empty), Ok(false));
    assert_eq!(windows::owner_pid_of_port_impl(53, UdpTable::Empty), Ok(None));
}

#[test]
fn windows_errors() {
    let unsupported = windows::udp_port_bound(1, UdpTable::Unsupported).unwrap_err();
    assert_eq!(unsupported, windows::PlatformError::Unsupported);
    assert_eq!(unsupported.display(), "unsupported platform for windows backend");
    let failed = UdpTable::Failed(IoError::Other("boom".to_string()));
    let error = windows::owner_pid_of_port(1, failed).unwrap_err();
    assert_eq!(error.display(), "io error: boom");

    assert_eq!(windows::ensure_loopback_exempt(CommandOutcome::Succeeded), Ok(()));
    let refused = CommandOutcome::Exited("exit code: 5".to_string());
    let error = windows::ensure_loopback_exempt(refused).unwrap_err();
    assert_eq!(
        error.display(),
        "command failed: CheckNetIsolation exited with status exit code: 5"
    );
    let missing = CommandOutcome::NotStarted(IoError::Other("not found".to_string()));
    assert!(matches!(
        windows::ensure_loopback_exempt_impl(missing),
        Err(windows::PlatformError::Io(_))
    ));
    assert_eq!(
        windows::ensure_loopback_exempt(CommandOutcome::Unsupported),
        Err(windows::PlatformError::Unsupported)
    );
    let command = linux::PlatformError::Command("pgrep".to_string());
    assert_eq!(command.display(), "command failed: pgrep");
}
