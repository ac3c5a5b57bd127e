use sysplay::process::error::ProcessBuilderError;
use sysplay::process::params::{get_directory_from_path, ProcessParamsBuilder, UnicodeSpan};

fn units(bytes: &[u8], start: usize, size: usize) -> String {
    let us: Vec<u16> = bytes[start..start + size]
        .chunks(2)
        .map(|c| u16::from_le_bytes([c[0], c[1]]))
        .collect();
    String::from_utf16(&us).unwrap()
}

#[test]
fn directory_of_a_path() {
    assert_eq!(get_directory_from_path("C:\\Windows\\notepad.exe"), "C:\\Windows");
    assert_eq!(get_directory_from_path("/usr/bin/env"), "/usr/bin");
    assert_eq!(get_directory_from_path("a\\b/c"), "a");
    assert_eq!(get_directory_from_path("notepad.exe"), "notepad.exe");
    assert_eq!(get_directory_from_path(""), "");
    assert_eq!(get_directory_from_path("\\x"), "");
}

#[test]
fn new_block_has_nothing_placed() {
    let b = ProcessParamsBuilder::<0x1000>::new();
    assert_eq!(b.len(), 0);
    assert!(b.params().is_none());
    assert!(b.as_mut_ptr().is_none());
    assert_eq!(b.as_ptr().len(), 0x1000);
}

#[test]
fn build_lays_out_the_strings() {
    let mut b = ProcessParamsBuilder::<0x1000>::new();
    b.set_image_path("C:\\Windows\\notepad.exe");
    b.set_environment(0x1234, 40);
    b.set_process_group(7);
    b.set_console_handle(0x50);
    assert_eq!(b.build(), Ok(()));
    let p = b.params().unwrap();
    assert_eq!(b.as_mut_ptr(), Some(0));
    assert_eq!(p.current_directory, UnicodeSpan { offset: 0x442, length: 22, maximum_length: 24 });
    assert_eq!(p.image_path_name, UnicodeSpan { offset: 0x458, length: 44, maximum_length: 46 });
    assert_eq!(p.command_line, UnicodeSpan { offset: 0x484, length: 44, maximum_length: 46 });
    assert_eq!(p.desktop_info, UnicodeSpan { offset: 0x4B0, length: 30, maximum_length: 32 });
    assert_eq!(p.window_title, UnicodeSpan { offset: 0x4CE, length: 44, maximum_length: 46 });
    assert_eq!(p.length, 22 + 44 + 44 + 30 + 44 + 0x440);
    assert_eq!(p.maximum_length, p.length);
    assert_eq!(p.flags, 1);
    assert_eq!(p.environment, 0x1234);
    assert_eq!(p.environment_size, 40);
    assert_eq!(p.process_group_id, 7);
    assert_eq!(p.console_handle, 0x50);
    assert_eq!(b.len(), 0x4FA);
    let bytes = b.as_ptr();
    assert_eq!(units(bytes, 0x442, 22), "C:\\Windows\\");
    assert_eq!(units(bytes, 0x458, 44), "C:\\Windows\\notepad.exe");
    assert_eq!(units(bytes, 0x4B0, 30), "Winsta0\\Default");
    assert_eq!(units(bytes, 0x4CE, 44), "C:\\Windows\\notepad.exe");
    assert_eq!(&bytes[0x4FA..0x4FC], &[0, 0]);
}

#[test]
fn command_line_quotes_the_path_before_arguments() {
    let mut b = ProcessParamsBuilder::<0x1000>::new();
    b.set_image_path("C:\\a b\\x.exe");
    b.set_command_args("-v 1");
    b.set_current_directory("D:\\work");
    assert_eq!(b.build(), Ok(()));
    let p = b.params().unwrap();
    let bytes = b.as_ptr();
    assert_eq!(units(bytes, p.current_directory.offset, p.current_directory.length as usize), "D:\\work\\");
    assert_eq!(
        units(bytes, p.command_line.offset, p.command_line.length as usize),
        "\"C:\\a b\\x.exe\" -v 1"
    );
    assert_eq!(p.command_line.length, 2 * 19);
}

#[test]
fn steps_one_at_a_time() {
    let mut b = ProcessParamsBuilder::<0x1000>::new();
    b.set_image_path("ab");
    assert_eq!(b.write_params(), Ok(()));
    assert_eq!(b.len(), 0x440);
    assert_eq!(b.offset(3), Ok(()));
    assert_eq!(b.len(), 0x443);
    assert_eq!(b.write_image_path(), Ok((0x444, 4)));
    assert_eq!(b.len(), 0x448);
    assert_eq!(b.write_window_title(), Ok((0x448, 4)));
    assert_eq!(b.write_command_args(), Ok((0x44C, 4)));
    assert_eq!(b.write_desktop_info(), Ok((0x450, 30)));
    assert_eq!(b.write_current_directory(), Ok((0x46E, 6)));
    assert_eq!(units(b.as_ptr(), 0x46E, 6), "ab\\");
}

#[test]
fn offset_past_the_end_fails() {
    let mut b = ProcessParamsBuilder::<0x1000>::new();
    assert_eq!(b.offset(0x1001), Err(ProcessBuilderError::BufferOverflow));
    assert_eq!(b.offset(0x1000), Ok(()));
    assert_eq!(b.len(), 0x1000);
    assert_eq!(b.offset(1), Err(ProcessBuilderError::BufferOverflow));
}

#[test]
fn long_path_overflows_the_buffer() {
    let long = "x".repeat(0x400);
    let mut b = ProcessParamsBuilder::<0x600>::new();
    b.set_image_path(&long);
    assert_eq!(b.build(), Err(ProcessBuilderError::BufferOverflow));
    let p = b.params().unwrap();
    assert_eq!(p.flags, 0);
}
