use get_last_error::OsError;
use get_last_error::TryFromIoError;
use get_last_error::Win32Error;
use std::collections::hash_map::DefaultHasher;
use std::hash::Hash;
use std::hash::Hasher;

fn hash_of(e: &Win32Error) -> u64 {
    let mut h = DefaultHasher::new();
    e.hash(&mut h);
    h.finish()
}

#[test]
fn new_wraps_any_code() {
    assert_eq!(Win32Error::new(0).code(), 0);
    assert_eq!(Win32Error::new(5).code(), 5);
    assert_eq!(Win32Error::new(0xFFFF_FFFF).code(), 0xFFFF_FFFF);
}

#[test]
fn raw_round_trip() {
    for n in [0u32, 1, 5, 122, 0x8000_0000, 0xFFFF_FFFF] {
        let e = Win32Error::from(n);
        assert_eq!(u32::from(e), n);
        assert_eq!(Win32Error::from(u32::from(e)), e);
    }
}

#[test]
fn os_error_round_trip() {
    let e = Win32Error::new(5);
    let os = OsError::from(e);
    assert_eq!(Win32Error::try_from(os), Ok(Win32Error::new(5)));
}

#[test]
fn os_error_round_trip_large_code() {
    let e = Win32Error::new(0xFFFF_FFFF);
    assert_eq!(Win32Error::try_from(OsError::from(e)), Ok(e));
}

#[test]
fn no_raw_code_fails_with_try_from_io_error() {
    let os = OsError::without_raw_code();
    assert_eq!(Win32Error::try_from(os), Err(TryFromIoError));
}

#[test]
fn os_error_accessors() {
    assert_eq!(OsError::from_raw_os_error(5).raw_os_error(), Some(5));
    assert_eq!(OsError::from_raw_os_error(-1).raw_os_error(), Some(-1));
    assert_eq!(OsError::without_raw_code().raw_os_error(), None);
}

#[test]
fn construction_paths_agree() {
    let a = Win32Error::new(7);
    let b = Win32Error::from(7u32);
    let c = Win32Error::try_from(OsError::from(Win32Error::new(7))).unwrap();
    assert_eq!(a, b);
    assert_eq!(b, c);
    assert_eq!(hash_of(&a), hash_of(&b));
    assert_eq!(hash_of(&b), hash_of(&c));
}

#[test]
fn ordering_is_by_code() {
    assert!(Win32Error::new(1) < Win32Error::new(2));
    assert!(Win32Error::new(2) == Win32Error::new(2));
    assert!(Win32Error::new(3) > Win32Error::new(2));
}

#[test]
fn try_from_io_error_message() {
    let m = TryFromIoError.message();
    assert_eq!(m, "the given io error did not contain a windows api error code.");
}
