use opendal::error::{Error, Kind};
use opendal::io::SeekableReader;
use opendal::memory::MemoryBackend;
use opendal::object::{exist_of, ListPhase, Metadata, Object, ObjectMode, ObjectStream};

fn backend_with(path: &str, bytes: &[u8]) -> MemoryBackend {
    let mut acc = MemoryBackend::new();
    let n = Object::new(path).writer().write_bytes(&mut acc, &bytes.to_vec()).unwrap();
    assert_eq!(n, bytes.len());
    acc
}

fn hello() -> MemoryBackend {
    backend_with("test", b"Hello, World!")
}

#[test]
fn hello_world_readers() {
    let mut acc = hello();
    let o = Object::new("test");
    assert_eq!(o.reader().read_to_end(&mut acc).unwrap(), b"Hello, World!".to_vec());
    assert_eq!(o.range_reader(7, 5).read_to_end(&mut acc).unwrap(), b"World".to_vec());
    assert_eq!(o.limited_reader(5).read_to_end(&mut acc).unwrap(), b"Hello".to_vec());
    assert_eq!(o.offset_reader(7).read_to_end(&mut acc).unwrap(), b"World!".to_vec());
    assert_eq!(acc.read_count(), 4);
}

#[test]
fn range_reader_windows() {
    let mut acc = hello();
    let o = Object::new("test");
    assert_eq!(o.range_reader(0, 13).read_to_end(&mut acc).unwrap().len(), 13);
    assert_eq!(o.range_reader(1, 1).read_to_end(&mut acc).unwrap(), b"e".to_vec());
    assert_eq!(o.range_reader(13, 0).read_to_end(&mut acc).unwrap(), Vec::<u8>::new());
    assert_eq!(o.range_reader(4, 0).read_to_end(&mut acc).unwrap(), Vec::<u8>::new());
}

#[test]
fn range_reader_out_of_bounds_fails() {
    let mut acc = hello();
    let o = Object::new("test");
    let e = o.range_reader(10, 4).read_to_end(&mut acc).unwrap_err();
    assert_eq!(e.kind(), Kind::Unexpected);
    let e = o.offset_reader(14).read_to_end(&mut acc).unwrap_err();
    assert_eq!(e.kind(), Kind::Unexpected);
}

#[test]
fn offset_reader_tail() {
    let mut acc = hello();
    let o = Object::new("test");
    assert_eq!(o.offset_reader(0).read_to_end(&mut acc).unwrap().len(), 13);
    assert_eq!(o.offset_reader(12).read_to_end(&mut acc).unwrap(), b"!".to_vec());
    assert_eq!(o.offset_reader(13).read_to_end(&mut acc).unwrap(), Vec::<u8>::new());
}

#[test]
fn limited_reader_caps_at_length() {
    let mut acc = hello();
    let o = Object::new("test");
    assert_eq!(o.limited_reader(100).read_to_end(&mut acc).unwrap(), b"Hello, World!".to_vec());
    assert_eq!(o.limited_reader(0).read_to_end(&mut acc).unwrap(), Vec::<u8>::new());
}

#[test]
fn reading_missing_object_fails() {
    let mut acc = hello();
    let e = Object::new("nope").reader().read_to_end(&mut acc).unwrap_err();
    assert_eq!(e.kind(), Kind::ObjectNotExist);
}

#[test]
fn metadata_cached_stats_once() {
    let mut acc = hello();
    let mut o = Object::new("test");
    assert_eq!(acc.stat_count(), 0);
    assert_eq!(o.metadata_cached(&mut acc).unwrap().content_length(), 13);
    let m = o.metadata_cached(&mut acc).unwrap();
    assert!(m.complete());
    assert_eq!(m.path(), "test");
    assert_eq!(m.mode(), ObjectMode::FILE);
    assert_eq!(acc.stat_count(), 1);
}

#[test]
fn metadata_stats_every_time() {
    let mut acc = hello();
    let o = Object::new("test");
    assert_eq!(o.metadata(&mut acc).unwrap().content_length(), 13);
    assert_eq!(o.metadata(&mut acc).unwrap().content_length(), 13);
    assert_eq!(acc.stat_count(), 2);
}

#[test]
fn metadata_cached_failure_leaves_cache() {
    let mut acc = hello();
    let mut o = Object::new("nope");
    assert_eq!(o.metadata_cached(&mut acc).unwrap_err().kind(), Kind::ObjectNotExist);
    assert_eq!(o.metadata_cached(&mut acc).unwrap_err().kind(), Kind::ObjectNotExist);
    assert_eq!(acc.stat_count(), 2);
}

#[test]
fn is_exist_cases() {
    let mut acc = hello();
    assert_eq!(Object::new("test").is_exist(&mut acc).unwrap(), true);
    assert_eq!(Object::new("nope").is_exist(&mut acc).unwrap(), false);
}

#[test]
fn exist_of_passes_other_errors() {
    let r = exist_of(Err(Error::Unexpected("boom".to_string())));
    match r {
        Err(Error::Unexpected(m)) => assert_eq!(m, "boom"),
        _ => panic!("expected the error back"),
    }
    let r = exist_of(Err(Error::BackendConfigurationInvalid {
        key: "k".to_string(),
        value: "v".to_string(),
    }));
    assert_eq!(r.unwrap_err().kind(), Kind::BackendConfigurationInvalid);
    assert_eq!(exist_of(Err(Error::ObjectNotExist("x".to_string()))).unwrap(), false);
    let mut m = Metadata::new("x");
    m.set_mode(ObjectMode::FILE);
    m.set_content_length(1);
    m.set_complete();
    assert_eq!(exist_of(Ok(m)).unwrap(), true);
}

#[test]
fn delete_missing_succeeds() {
    let mut acc = hello();
    assert!(Object::new("nope").delete(&mut acc).is_ok());
    assert!(Object::new("nope").delete(&mut acc).is_ok());
    assert_eq!(acc.delete_count(), 2);
}

#[test]
fn delete_then_stat_fails() {
    let mut acc = hello();
    let o = Object::new("test");
    assert!(o.delete(&mut acc).is_ok());
    assert_eq!(o.metadata(&mut acc).unwrap_err().kind(), Kind::ObjectNotExist);
    assert_eq!(o.is_exist(&mut acc).unwrap(), false);
}

#[test]
fn write_replaces_whole_object() {
    let mut acc = hello();
    let o = Object::new("test");
    o.writer().write_bytes(&mut acc, &b"abc".to_vec()).unwrap();
    assert_eq!(o.reader().read_to_end(&mut acc).unwrap(), b"abc".to_vec());
    assert_eq!(o.metadata(&mut acc).unwrap().content_length(), 3);
    assert_eq!(acc.write_count(), 2);
}

#[test]
fn stream_lists_once() {
    let mut acc = backend_with("dir/a", b"1");
    Object::new("dir/b").writer().write_bytes(&mut acc, &b"22".to_vec()).unwrap();
    Object::new("other").writer().write_bytes(&mut acc, &b"3".to_vec()).unwrap();
    let mut s = ObjectStream::new("dir/");
    assert_eq!(s.phase(), ListPhase::Idle);
    assert_eq!(acc.list_count(), 0);
    let mut paths = Vec::new();
    while let Some(item) = s.poll_next(&mut acc) {
        paths.push(item.unwrap().path().to_string());
    }
    assert_eq!(s.phase(), ListPhase::Listing);
    assert!(s.poll_next(&mut acc).is_none());
    paths.sort();
    assert_eq!(paths, vec!["dir/a".to_string(), "dir/b".to_string()]);
    assert_eq!(acc.list_count(), 1);
}

#[test]
fn stream_never_polled_lists_nothing() {
    let acc = hello();
    let s = ObjectStream::new("dir/");
    assert_eq!(s.phase(), ListPhase::Idle);
    assert_eq!(acc.list_count(), 0);
}

#[test]
fn stream_failed_listing_terminates() {
    let mut s = ObjectStream::new("dir/");
    let first = s.on_list_result(Err(Error::Unexpected("down".to_string())));
    assert_eq!(first.unwrap().unwrap_err().kind(), Kind::Unexpected);
    assert_eq!(s.phase(), ListPhase::Terminated);
    let mut acc = hello();
    assert!(s.poll_next(&mut acc).is_none());
    assert_eq!(acc.list_count(), 0);
}

#[test]
fn stream_forwards_item_errors() {
    let mut s = ObjectStream::new("dir/");
    let items = vec![
        Ok(Object::new("dir/a")),
        Err(Error::Unexpected("bad".to_string())),
        Ok(Object::new("dir/c")),
    ];
    let first = s.on_list_result(Ok(items));
    assert_eq!(first.unwrap().unwrap().path(), "dir/a");
    let mut acc = MemoryBackend::new();
    assert_eq!(s.poll_next(&mut acc).unwrap().unwrap_err().kind(), Kind::Unexpected);
    assert_eq!(s.poll_next(&mut acc).unwrap().unwrap().path(), "dir/c");
    assert!(s.poll_next(&mut acc).is_none());
}

#[test]
fn seekable_two_ranged_reads() {
    let bytes: Vec<u8> = (0..200u32).map(|i| i as u8).collect();
    let mut acc = backend_with("big", &bytes);
    let mut r = SeekableReader::new("big", 200);
    r.seek(100);
    assert_eq!(r.read(&mut acc, 10).unwrap(), bytes[100..110].to_vec());
    r.seek(0);
    assert_eq!(r.read(&mut acc, 10).unwrap(), bytes[0..10].to_vec());
    assert_eq!(acc.read_count(), 2);
}

#[test]
fn seekable_reads_on_without_new_request() {
    let mut acc = hello();
    let mut r = SeekableReader::new("test", 13);
    assert_eq!(r.read(&mut acc, 5).unwrap(), b"Hello".to_vec());
    assert_eq!(r.read(&mut acc, 2).unwrap(), b", ".to_vec());
    assert_eq!(r.read(&mut acc, 100).unwrap(), b"World!".to_vec());
    assert_eq!(r.read(&mut acc, 100).unwrap(), Vec::<u8>::new());
    assert_eq!(acc.read_count(), 1);
}

#[test]
fn seekable_past_end_yields_nothing() {
    let mut acc = hello();
    let mut r = SeekableReader::new("test", 13);
    r.seek(50);
    assert_eq!(r.read(&mut acc, 10).unwrap(), Vec::<u8>::new());
    assert_eq!(acc.read_count(), 0);
}

#[test]
fn object_mode_names_and_default() {
    assert_eq!(ObjectMode::FILE.to_str(), "file");
    assert_eq!(ObjectMode::DIR.to_str(), "dir");
    assert_eq!(ObjectMode::Unknown.to_str(), "unknown");
    assert_eq!(ObjectMode::default(), ObjectMode::Unknown);
}

#[test]
fn metadata_setters() {
    let mut m = Metadata::new("a");
    assert!(!m.complete());
    m.set_path("b");
    m.set_mode(ObjectMode::DIR);
    m.set_content_length(7);
    m.set_complete();
    assert_eq!(m.path(), "b");
    assert_eq!(m.mode(), ObjectMode::DIR);
    assert_eq!(m.content_length(), 7);
}

#[test]
fn stream_skips_nested_entries() {
    let mut acc = backend_with("dir/a", b"1");
    Object::new("dir/sub/x").writer().write_bytes(&mut acc, &b"2".to_vec()).unwrap();
    Object::new("dir/sub/").writer().write_bytes(&mut acc, &Vec::new()).unwrap();
    Object::new("dir").writer().write_bytes(&mut acc, &b"3".to_vec()).unwrap();
    let mut s = ObjectStream::new("dir/");
    let mut paths = Vec::new();
    while let Some(item) = s.poll_next(&mut acc) {
        paths.push(item.unwrap().path().to_string());
    }
    paths.sort();
    assert_eq!(paths, vec!["dir/a".to_string(), "dir/sub/".to_string()]);
    assert_eq!(acc.list_count(), 1);
}

#[test]
fn cache_is_per_handle() {
    let mut acc = hello();
    let mut a = Object::new("test");
    let mut b = a.clone();
    a.metadata_cached(&mut acc).unwrap();
    a.metadata_cached(&mut acc).unwrap();
    assert_eq!(acc.stat_count(), 1);
    b.metadata_cached(&mut acc).unwrap();
    assert_eq!(acc.stat_count(), 2);
    let mut c = a.clone();
    c.metadata_cached(&mut acc).unwrap();
    assert_eq!(acc.stat_count(), 2);
}

#[test]
fn metadata_mut_fills_cache() {
    let mut acc = hello();
    let mut o = Object::new("test");
    o.metadata_mut().set_mode(ObjectMode::DIR).set_content_length(5).set_complete();
    let m = o.metadata_cached(&mut acc).unwrap();
    assert_eq!(m.mode(), ObjectMode::DIR);
    assert_eq!(m.content_length(), 5);
    assert_eq!(acc.stat_count(), 0);
}

#[test]
fn write_then_list_then_delete() {
    let mut acc = MemoryBackend::new();
    Object::new("d/x").writer().write_bytes(&mut acc, &b"x".to_vec()).unwrap();
    Object::new("d/x").writer().write_bytes(&mut acc, &b"yy".to_vec()).unwrap();
    let mut s = ObjectStream::new("d/");
    let first = s.poll_next(&mut acc).unwrap().unwrap();
    assert_eq!(first.path(), "d/x");
    assert!(s.poll_next(&mut acc).is_none());
    Object::new("d/x").delete(&mut acc).unwrap();
    let mut s = ObjectStream::new("d/");
    assert!(s.poll_next(&mut acc).is_none());
    assert_eq!(acc.list_count(), 2);
}

#[test]
fn seekable_from_stat() {
    let mut acc = hello();
    let m = Object::new("test").metadata(&mut acc).unwrap();
    let mut r = SeekableReader::from_metadata(&m);
    r.seek(7);
    assert_eq!(r.read(&mut acc, 100).unwrap(), b"World!".to_vec());
    assert_eq!(r.read(&mut acc, 100).unwrap(), Vec::<u8>::new());
    assert_eq!(acc.read_count(), 1);
}

#[test]
fn fill_cache_cases() {
    let mut o = Object::new("p");
    let e = o.fill_cache(Err(Error::Unexpected("down".to_string()))).unwrap_err();
    assert_eq!(e.kind(), Kind::Unexpected);
    assert!(!o.metadata_mut().complete());
    let mut m = Metadata::new("p");
    m.set_mode(ObjectMode::FILE).set_content_length(9).set_complete();
    let got = o.fill_cache(Ok(m)).unwrap();
    assert!(got.complete());
    assert_eq!(got.content_length(), 9);
    let mut acc = MemoryBackend::new();
    assert_eq!(o.metadata_cached(&mut acc).unwrap().content_length(), 9);
    assert_eq!(acc.stat_count(), 0);
}

#[test]
fn metadata_default_is_incomplete() {
    let m = Metadata::default();
    assert!(!m.complete());
    assert_eq!(m.path(), "");
}

#[test]
fn on_opened_cases() {
    let mut r = SeekableReader::new("p", 10);
    r.seek(4);
    let e = r.on_opened(Err(Error::ObjectNotExist("p".to_string())), 3).unwrap_err();
    assert_eq!(e.kind(), Kind::ObjectNotExist);
    let e = r.on_opened(Ok(vec![1, 2]), 3).unwrap_err();
    assert_eq!(e.kind(), Kind::Unexpected);
    let got = r.on_opened(Ok(vec![4, 5, 6, 7, 8, 9]), 3).unwrap();
    assert_eq!(got, vec![4, 5, 6]);
    let mut acc = MemoryBackend::new();
    assert_eq!(r.read(&mut acc, 10).unwrap(), vec![7, 8, 9]);
    assert_eq!(acc.read_count(), 0);
}
