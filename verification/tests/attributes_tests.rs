use sysplay::process::attributes::{
    AttributesBuilder, PsAttribute, PS_ATTRIBUTE_CLIENT_ID, PS_ATTRIBUTE_IMAGE_INFO, PS_ATTRIBUTE_IMAGE_NAME,
    PS_ATTRIBUTE_PARENT_PROCESS,
};
use sysplay::process::builder::{check_creation, ProcessBuilder};
use sysplay::process::environment::EnvironmentBuilder;
use sysplay::process::error::ProcessBuilderError;

#[test]
fn attribute_list_layout() {
    let mut a = AttributesBuilder::<512>::new();
    a.set_image_path("C:\\a.exe");
    assert_eq!(a.build(), Ok(()));
    assert_eq!(a.client_id(), Some(24));
    assert_eq!(a.image_info(), Some(40));
    assert_eq!(a.as_mut_ptr(), Some(104));
    assert_eq!(a.len(), 208);
    let (entries, total) = a.as_attr_list();
    assert_eq!(total, 104);
    assert_eq!(
        entries,
        vec![
            PsAttribute { attribute: PS_ATTRIBUTE_IMAGE_NAME, size: 24, value: 0 },
            PsAttribute { attribute: PS_ATTRIBUTE_CLIENT_ID, size: 16, value: 24 },
            PsAttribute { attribute: PS_ATTRIBUTE_IMAGE_INFO, size: 64, value: 40 },
        ]
    );
    let us: Vec<u16> = a.as_ptr()[..24].chunks(2).map(|c| u16::from_le_bytes([c[0], c[1]])).collect();
    assert_eq!(String::from_utf16(&us).unwrap(), "\\??\\C:\\a.exe");
    assert!(a.as_ptr()[24..104].iter().all(|&b| b == 0));
}

#[test]
fn parent_process_entry() {
    let mut a = AttributesBuilder::<512>::new();
    a.set_image_path("x");
    a.set_parent_pid(42);
    assert_eq!(a.parent_pid(), Some(42));
    assert_eq!(a.build(), Ok(()));
    assert_eq!(a.add_parent_process(-5, 0), Err(ProcessBuilderError::NtOpenProcessFailed(-5)));
    assert_eq!(a.add_parent_process(0, 0x1234), Ok(()));
    let (entries, total) = a.as_attr_list();
    assert_eq!(entries.len(), 4);
    assert_eq!(entries[3], PsAttribute { attribute: PS_ATTRIBUTE_PARENT_PROCESS, size: 8, value: 0x1234 });
    assert_eq!(total, 8 + 4 * 32);
}

#[test]
fn attribute_list_failures() {
    let mut a = AttributesBuilder::<512>::new();
    assert_eq!(a.build(), Err(ProcessBuilderError::ImagePathEmpty));
    let mut small = AttributesBuilder::<64>::new();
    small.set_image_path("C:\\a.exe");
    assert_eq!(small.build(), Err(ProcessBuilderError::BufferOverflow));
    assert_eq!(small.client_id(), Some(24));
    assert_eq!(small.image_info(), None);
    let mut tiny = AttributesBuilder::<16>::new();
    tiny.set_image_path("C:\\a.exe");
    assert_eq!(tiny.build(), Err(ProcessBuilderError::BufferOverflow));
    assert_eq!(tiny.len(), 0);
}

#[test]
fn creation_outcomes() {
    assert_eq!(check_creation(0, 3), Ok(()));
    assert_eq!(check_creation(-1, 1), Err(ProcessBuilderError::CouldNotOpenFile));
    assert_eq!(check_creation(-1, 3), Err(ProcessBuilderError::InvalidImageFormat));
    assert_eq!(check_creation(-1, 5), Err(ProcessBuilderError::ImageFileExecutionOptions));
    assert_eq!(check_creation(-7, 9), Err(ProcessBuilderError::NtCreateUserProcessFailed(-7)));
}

#[test]
fn process_builder_prepares_blocks() {
    let mut env = EnvironmentBuilder::<64>::new();
    env.set("A", "1").unwrap();
    let b = ProcessBuilder::<64, 0x1000, 512>::new()
        .with_environment(env)
        .with_absolute_image_path("C:\\Windows\\notepad.exe")
        .with_command_args("x.txt")
        .with_process_group(3)
        .suspended()
        .detached();
    assert_eq!(b.desired_access(), (0x200, 0x200));
    assert_eq!(b.create_flags(), (0, 1));
    assert_eq!(b.init_state(), (0x2000_0003, 0x81));
    let mut b = b;
    assert_eq!(b.prepare(0x5000), Ok(()));
    let p = b.process_params().params().unwrap();
    assert_eq!(p.environment, 0x5000);
    assert_eq!(p.environment_size, 8);
    assert_eq!(p.process_group_id, 3);
    assert_eq!(p.console_handle, usize::MAX);
    assert_eq!(b.attributes().as_attr_list().0.len(), 3);
    let d = ProcessBuilder::<64, 0x1000, 512>::new().debug();
    assert_eq!(d.init_state(), (0x2000_000F, 0));
}
