use lsdiscovery::memory_scan::{
    next_chunk, next_scan_step, ScanStep, CHUNK_SIZE, MAX_PROCESS_BYTES, MAX_REGION_BYTES,
};
use lsdiscovery::text::{offset_back, offset_forth};
use lsdiscovery::process_cmdline::{
    accept_output, get_cmdline_linux, get_cmdline_macos, get_cmdline_windows, CmdlineStep,
    WindowsSource,
};
use lsdiscovery::text::{chars_of, trim_text};
use lsdiscovery::types::DiscoveryError;

#[test]
fn arguments_are_joined_by_spaces() {
    assert_eq!(get_cmdline_linux("ls\0--port\042\0"), "ls --port 42 ");
    assert_eq!(get_cmdline_linux(""), "");
    assert_eq!(get_cmdline_linux("端口\0x"), "端口 x");
}

#[test]
fn ps_output_is_trimmed() {
    assert_eq!(get_cmdline_macos("  /bin/ls --x 1 \n"), "/bin/ls --x 1");
    assert_eq!(get_cmdline_macos("\n\t "), "");
    assert_eq!(get_cmdline_macos(""), "");
    assert_eq!(get_cmdline_macos("a"), "a");
}

#[test]
fn trimming_takes_white_space_only() {
    assert_eq!(trim_text("\u{3000} a b \u{a0}"), "a b");
    assert_eq!(trim_text("\u{200b}a"), "\u{200b}a");
    assert_eq!(trim_text(" a"), "a");
    assert_eq!(trim_text("a "), "a");
    assert_eq!(chars_of("a端"), vec!['a', '端']);
}

#[test]
fn utility_output_is_accepted_unless_empty_or_null() {
    assert_eq!(accept_output(WindowsSource::CimInstance, " ls.exe --x \r\n"), Some("ls.exe --x".to_string()));
    assert_eq!(accept_output(WindowsSource::CimInstance, "\r\n"), None);
    assert_eq!(accept_output(WindowsSource::WmiObject, " null \r\n"), None);
    assert_eq!(accept_output(WindowsSource::WmiObject, "nullx"), Some("nullx".to_string()));
    assert_eq!(accept_output(WindowsSource::ProcessList, ""), None);
    assert_eq!(accept_output(WindowsSource::ProcessList, " a "), Some(" a ".to_string()));
    assert_eq!(accept_output(WindowsSource::ProcessList, "null"), Some("null".to_string()));
}

#[test]
fn windows_sources_are_asked_in_turn() {
    assert_eq!(get_cmdline_windows(7, None, None), CmdlineStep::Ask(WindowsSource::ProcessList));
    assert_eq!(
        get_cmdline_windows(7, Some(WindowsSource::ProcessList), Some("")),
        CmdlineStep::Ask(WindowsSource::CimInstance)
    );
    assert_eq!(
        get_cmdline_windows(7, Some(WindowsSource::ProcessList), Some("ls --x")),
        CmdlineStep::Found("ls --x".to_string())
    );
    assert_eq!(
        get_cmdline_windows(7, Some(WindowsSource::CimInstance), None),
        CmdlineStep::Ask(WindowsSource::WmiObject)
    );
    assert_eq!(
        get_cmdline_windows(7, Some(WindowsSource::WmiObject), Some(" ls \n")),
        CmdlineStep::Found("ls".to_string())
    );
    assert_eq!(
        get_cmdline_windows(1234, Some(WindowsSource::WmiObject), Some("null")),
        CmdlineStep::Failed(DiscoveryError::IoError("无法获取进程 1234 的命令行参数".to_string()))
    );
}

#[test]
fn regions_are_read_in_chunks_up_to_the_budget() {
    assert_eq!(next_chunk(0, 0), None);
    assert_eq!(next_chunk(100, 0), Some((0, 100)));
    assert_eq!(next_chunk(100, 100), None);
    assert_eq!(next_chunk(CHUNK_SIZE + 5, 0), Some((0, CHUNK_SIZE)));
    assert_eq!(next_chunk(CHUNK_SIZE + 5, CHUNK_SIZE), Some((CHUNK_SIZE, 5)));
    assert_eq!(next_chunk(CHUNK_SIZE + 5, CHUNK_SIZE + 5), None);
    let last = MAX_REGION_BYTES - CHUNK_SIZE;
    assert_eq!(next_chunk(usize::MAX, last), Some((last, CHUNK_SIZE)));
    assert_eq!(next_chunk(usize::MAX, MAX_REGION_BYTES), None);
    assert_eq!(next_chunk(10, 11), None);
}

#[test]
fn scan_stops_at_the_budget_of_the_process() {
    assert_eq!(next_scan_step(100, 0, 0), ScanStep::Read(0, 100));
    assert_eq!(next_scan_step(100, 100, 100), ScanStep::NextRegion);
    assert_eq!(next_scan_step(CHUNK_SIZE * 2, CHUNK_SIZE, 7), ScanStep::Read(CHUNK_SIZE, CHUNK_SIZE));
    assert_eq!(next_scan_step(100, 0, MAX_PROCESS_BYTES), ScanStep::Stop);
    assert_eq!(next_scan_step(100, 100, MAX_PROCESS_BYTES), ScanStep::Stop);
    assert_eq!(next_scan_step(100, 0, MAX_PROCESS_BYTES - 30), ScanStep::Read(0, 30));
    assert_eq!(next_scan_step(usize::MAX, MAX_REGION_BYTES, 0), ScanStep::NextRegion);
}

#[test]
fn offsets_step_over_whole_characters() {
    let text = "a端b口c".as_bytes();
    assert_eq!(text.len(), 9);
    assert_eq!(offset_back(text, 9, 1), 8);
    assert_eq!(offset_back(text, 9, 2), 5);
    assert_eq!(offset_back(text, 9, 4), 1);
    assert_eq!(offset_back(text, 9, 5), 0);
    assert_eq!(offset_back(text, 9, 50), 0);
    assert_eq!(offset_back(text, 4, 1), 1);
    assert_eq!(offset_back(text, 0, 3), 0);
    assert_eq!(offset_back(text, 5, 0), 5);
    assert_eq!(offset_forth(text, 0, 1), 1);
    assert_eq!(offset_forth(text, 0, 2), 4);
    assert_eq!(offset_forth(text, 1, 1), 4);
    assert_eq!(offset_forth(text, 4, 3), 9);
    assert_eq!(offset_forth(text, 0, 50), 9);
    assert_eq!(offset_forth(text, 9, 2), 9);
    assert_eq!(offset_forth(text, 12, 2), 12);
    assert_eq!(offset_forth(text, 3, 0), 3);
}
