use liblmod::kernel::Utsname;
use liblmod::{Error, IoError, OsError};

fn with_release(bytes: &[u8]) -> Utsname {
    let mut answer = Utsname::new();
    answer.release[..bytes.len()].copy_from_slice(bytes);
    answer
}

#[test]
fn utsname_new_is_all_zero() {
    let answer = Utsname::new();
    assert_eq!(answer.sysname, [0u8; 65]);
    assert_eq!(answer.nodename, [0u8; 65]);
    assert_eq!(answer.release, [0u8; 65]);
    assert_eq!(answer.version, [0u8; 65]);
    assert_eq!(answer.machine, [0u8; 65]);
}

#[test]
fn release_text_ends_at_the_first_zero() {
    assert_eq!(with_release(b"6.1.0-13-amd64").release_text(), Ok("6.1.0-13-amd64".to_string()));
    assert_eq!(with_release(b"5.4\0rest").release_text(), Ok("5.4".to_string()));
    assert_eq!(Utsname::new().release_text(), Ok(String::new()));
}

#[test]
fn release_text_without_a_zero_is_the_whole_field() {
    let answer = with_release(&[b'a'; 65]);
    assert_eq!(answer.release_text(), Ok("a".repeat(65)));
}

#[test]
fn release_text_decodes_utf8() {
    assert_eq!(with_release("5.4-é".as_bytes()).release_text(), Ok("5.4-é".to_string()));
}

#[test]
fn release_text_refuses_what_is_not_utf8() {
    assert_eq!(with_release(&[b'5', 0xff, b'4']).release_text(), Err(Error::Decoding));
    assert_eq!(with_release(&[0xc3]).release_text(), Err(Error::Decoding));
}

#[test]
fn release_text_reads_only_the_release() {
    let mut answer = with_release(b"v1");
    answer.sysname[0] = 0xff;
    answer.version[0] = b'#';
    assert_eq!(answer.release_text(), Ok("v1".to_string()));
}

#[test]
fn already_exists_is_error_number_17() {
    assert!(OsError { code: 17 }.already_exists());
    assert!(!OsError { code: 2 }.already_exists());
    assert!(!OsError { code: 0 }.already_exists());
    assert!(IoError { code: Some(17) }.already_exists());
    assert!(!IoError { code: Some(2) }.already_exists());
    assert!(!IoError { code: None }.already_exists());
}

#[test]
fn message_of_a_module_not_provided() {
    let error = Error::ModuleNotProvided { kernel_version: "5.4-x86_64".to_string() };
    assert_eq!(error.message(), Some("Module is not provided by 5.4-x86_64 kernel".to_string()));
    assert_eq!(Error::Decoding.message(), None);
    assert_eq!(Error::Os(OsError { code: 1 }).message(), None);
    assert_eq!(Error::Io(IoError { code: None }).message(), None);
}
