use kv_vfs::adapter::{AsyncJammDbFile, AsyncJammDbVfs};
use kv_vfs::vfs::{OpenOptions, Registry, Vfs, VfsFile};
use std::sync::{Arc, Mutex};

fn open_rw(vfs: &AsyncJammDbVfs, name: &str) -> AsyncJammDbFile {
    vfs.open(name, OpenOptions::new()).unwrap()
}

#[test]
fn round_trip_at_offset_zero() {
    let mut vfs = AsyncJammDbVfs::new("jammdb.db");
    let file = open_rw(&vfs, "f");
    let data = [10u8, 20, 30, 40];
    let written = vfs.write_at(&file, 0, &data).unwrap();
    assert_eq!(written, 4);
    let mut buf = vec![0u8; 4];
    let read = vfs.read_at(&file, 0, &mut buf).unwrap();
    assert_eq!(read, 4);
    assert_eq!(buf, data.to_vec());
}

#[test]
fn write_at_offset_into_empty_zero_fills() {
    let mut vfs = AsyncJammDbVfs::new("jammdb.db");
    let file = open_rw(&vfs, "sparse");
    let written = vfs.write_at(&file, 5, &[1u8, 2, 3]).unwrap();
    assert_eq!(written, 3);
    let mut buf = vec![9u8; 16];
    let read = vfs.read_at(&file, 0, &mut buf).unwrap();
    assert_eq!(read, 8, "the payload ends at offset + data length");
    assert_eq!(&buf[..8], &[0, 0, 0, 0, 0, 1, 2, 3]);
    assert_eq!(&buf[8..], &[9u8; 8], "the rest of the buffer is untouched");
}

#[test]
fn overwrite_inside_leaves_outside_unchanged() {
    let mut vfs = AsyncJammDbVfs::new("jammdb.db");
    let file = open_rw(&vfs, "f");
    let base: Vec<u8> = (1..=10).collect();
    vfs.write_at(&file, 0, &base).unwrap();
    vfs.write_at(&file, 4, &[99u8, 98]).unwrap();
    let mut buf = vec![0u8; 10];
    let read = vfs.read_at(&file, 0, &mut buf).unwrap();
    assert_eq!(read, 10, "an inside write does not change the length");
    assert_eq!(buf, vec![1, 2, 3, 4, 99, 98, 7, 8, 9, 10]);
}

#[test]
fn read_past_end_returns_zero_bytes() {
    let mut vfs = AsyncJammDbVfs::new("jammdb.db");
    let file = open_rw(&vfs, "f");
    vfs.write_at(&file, 0, &[1u8, 2, 3]).unwrap();
    let mut buf = vec![7u8; 4];
    let read = vfs.read_at(&file, 10, &mut buf).unwrap();
    assert_eq!(read, 0);
    assert_eq!(buf, vec![7u8; 4]);
}

#[test]
fn short_read_when_buffer_reaches_past_end() {
    let mut vfs = AsyncJammDbVfs::new("jammdb.db");
    let file = open_rw(&vfs, "f");
    vfs.write_at(&file, 0, &[1u8, 2, 3, 4, 5]).unwrap();
    let mut buf = vec![0u8; 8];
    let read = vfs.read_at(&file, 3, &mut buf).unwrap();
    assert_eq!(read, 2);
    assert_eq!(&buf[..2], &[4, 5]);
    assert_eq!(&buf[2..], &[0u8; 6]);
}

#[test]
fn read_of_never_written_name_returns_zero() {
    let vfs = AsyncJammDbVfs::new("jammdb.db");
    let file = open_rw(&vfs, "never-written");
    let mut buf = vec![3u8; 16];
    let read = vfs.read_at(&file, 0, &mut buf).unwrap();
    assert_eq!(read, 0, "an absent name reads as empty, not as an error");
    assert_eq!(buf, vec![3u8; 16]);
}

#[test]
fn empty_write_extends_to_its_offset() {
    let mut vfs = AsyncJammDbVfs::new("jammdb.db");
    let file = open_rw(&vfs, "f");
    vfs.write_at(&file, 4, &[]).unwrap();
    let mut buf = vec![8u8; 8];
    let read = vfs.read_at(&file, 0, &mut buf).unwrap();
    assert_eq!(read, 4);
    assert_eq!(&buf[..4], &[0u8; 4]);
}

#[test]
fn same_name_opens_share_the_bytes() {
    let mut vfs = AsyncJammDbVfs::new("jammdb.db");
    let first = open_rw(&vfs, "shared");
    let second = open_rw(&vfs, "shared");
    vfs.write_at(&first, 0, &[5u8, 6]).unwrap();
    let mut buf = vec![0u8; 2];
    let read = vfs.read_at(&second, 0, &mut buf).unwrap();
    assert_eq!(read, 2);
    assert_eq!(buf, vec![5, 6]);
}

#[test]
fn serialized_writers_last_one_wins() {
    // Two callers share the adapter behind a lock, as an embedding runtime
    // would; whichever write lands second determines the overlapping range.
    let shared = Arc::new(Mutex::new(AsyncJammDbVfs::new("jammdb.db")));
    let writer_a = shared.clone();
    let writer_b = shared.clone();
    let file = open_rw(&shared.lock().unwrap(), "contended");
    writer_a.lock().unwrap().write_at(&file, 0, &[1u8; 8]).unwrap();
    writer_b.lock().unwrap().write_at(&file, 0, &[2u8; 8]).unwrap();
    let mut buf = vec![0u8; 8];
    let read = shared.lock().unwrap().read_at(&file, 0, &mut buf).unwrap();
    assert_eq!(read, 8);
    assert_eq!(buf, vec![2u8; 8], "the later write determines every byte it covers");
}

#[test]
fn register_open_write_read_scenario() {
    let mut registry: Registry<Arc<Mutex<AsyncJammDbVfs>>> = Registry::new();
    let backend = Arc::new(Mutex::new(AsyncJammDbVfs::new("jammdb.db")));
    registry.register_vfs("kv1", backend, true).unwrap();
    let resolved = registry.resolve_default().unwrap().clone();

    let mut vfs = resolved.lock().unwrap();
    let file = vfs.open("users.db", OpenOptions::new()).unwrap();
    vfs.write_at(&file, 0, &[0u8; 100]).unwrap();
    vfs.write_at(&file, 10, &[1u8, 2, 3]).unwrap();

    let mut buf = vec![7u8; 100];
    let read = vfs.read_at(&file, 0, &mut buf).unwrap();
    assert_eq!(read, 100);
    let mut expected = vec![0u8; 100];
    expected[10] = 1;
    expected[11] = 2;
    expected[12] = 3;
    assert_eq!(buf, expected);
}

#[test]
fn registry_refuses_duplicate_names() {
    let mut registry: Registry<u32> = Registry::new();
    registry.register_vfs("kv1", 1, false).unwrap();
    let err = registry.register_vfs("kv1", 2, false).unwrap_err();
    assert_eq!(err.message(), "name is already registered");
    assert_eq!(registry.resolve("kv1"), Some(&1), "the earlier registration stands");
}

#[test]
fn registry_resolves_by_name_and_default() {
    let mut registry: Registry<u32> = Registry::new();
    assert!(registry.resolve("kv1").is_none());
    assert!(registry.resolve_default().is_none());
    registry.register_vfs("kv1", 10, false).unwrap();
    registry.register_vfs("kv2", 20, true).unwrap();
    assert_eq!(registry.resolve("kv1"), Some(&10));
    assert_eq!(registry.resolve("kv2"), Some(&20));
    assert_eq!(registry.resolve_default(), Some(&20));
    assert!(registry.resolve("kv3").is_none());
}

#[test]
fn read_only_open_of_absent_name_fails() {
    let vfs = AsyncJammDbVfs::new("jammdb.db");
    let mut options = OpenOptions::new();
    options.read_only = true;
    let err = match vfs.open("missing", options) {
        Err(e) => e,
        Ok(_) => panic!("a read-only open of an absent name must fail"),
    };
    assert_eq!(err.message(), "read-only open of an absent name");
}

#[test]
fn read_only_open_of_existing_name_succeeds() {
    let mut vfs = AsyncJammDbVfs::new("jammdb.db");
    let file = open_rw(&vfs, "present");
    vfs.write_at(&file, 0, &[1u8]).unwrap();
    let mut options = OpenOptions::new();
    options.read_only = true;
    let reopened = vfs.open("present", options).unwrap();
    let mut buf = vec![0u8; 1];
    let read = vfs.read_at(&reopened, 0, &mut buf).unwrap();
    assert_eq!(read, 1);
    assert_eq!(buf, vec![1]);
}
