use std::collections::VecDeque;

use hypehouse_engine::audio::http_source::{
    parse_total_length, range_header, slice_into_pages, HttpMediaSource, HttpReply, Page, ReadStep,
    SeekTarget, SourceError, FETCH_BYTES, MAX_CACHED_PAGES, PAGE_SIZE, PREFETCH_BYTES,
};

fn deterministic_body(n: usize) -> Vec<u8> {
    let mut v = Vec::with_capacity(n);
    let mut x: u32 = 0xdead_beef;
    for _ in 0..n {
        x = x.wrapping_mul(1_664_525).wrapping_add(1_013_904_223);
        v.push((x >> 16) as u8);
    }
    v
}

fn partial(body: &[u8], lo: u64, hi: u64) -> HttpReply {
    let total = body.len() as u64;
    let hi = hi.min(total - 1);
    HttpReply {
        status: 206,
        accept_ranges: Some("bytes".into()),
        content_range: Some(format!("bytes {lo}-{hi}/{total}")),
        content_length: Some((hi - lo + 1).to_string()),
        body: body[lo as usize..=hi as usize].to_vec(),
    }
}

fn open(body: &[u8]) -> HttpMediaSource {
    HttpMediaSource::open("http://h/x.mp3".into(), partial(body, 0, PREFETCH_BYTES - 1))
        .expect("open")
}

/// Read once, from the cache or with a fetch.
fn read(src: &mut HttpMediaSource, body: &[u8], buf: &mut [u8]) -> Result<usize, SourceError> {
    match src.begin_read(buf) {
        ReadStep::Done(n) => Ok(n),
        ReadStep::Failed(e) => Err(e),
        ReadStep::Fetch { lo, hi } => src.finish_read(lo, partial(body, lo, hi), buf),
    }
}

/// Read from the cache alone.
fn read_cached(src: &mut HttpMediaSource, buf: &mut [u8]) -> usize {
    let mut filled = 0;
    while filled < buf.len() {
        match src.begin_read(&mut buf[filled..]) {
            ReadStep::Done(0) => return filled,
            ReadStep::Done(n) => filled += n,
            other => panic!("expected a cache hit, got {other:?}"),
        }
    }
    filled
}

#[test]
fn read_first_megabyte_byte_for_byte() {
    let body = deterministic_body(2 * 1024 * 1024);
    let mut src = open(&body);
    assert!(src.is_seekable());
    assert_eq!(src.byte_len(), Some(body.len() as u64));

    let mut buf = vec![0u8; 1024 * 1024];
    let mut filled = 0;
    while filled < buf.len() {
        let n = read(&mut src, &body, &mut buf[filled..]).expect("read");
        if n == 0 {
            break;
        }
        filled += n;
    }
    assert_eq!(filled, 1024 * 1024);
    assert_eq!(&buf, &body[..1024 * 1024]);
}

#[test]
fn seek_into_middle_returns_slice() {
    let body = deterministic_body(2 * 1024 * 1024);
    let mut src = open(&body);
    let off = src.seek(SeekTarget::Start(500 * 1024)).expect("seek");
    assert_eq!(off, 500 * 1024);

    let mut buf = vec![0u8; 100 * 1024];
    let mut filled = 0;
    while filled < buf.len() {
        filled += read(&mut src, &body, &mut buf[filled..]).expect("read_exact");
    }
    assert_eq!(&buf[..], &body[500 * 1024..600 * 1024]);
}

#[test]
fn seek_to_end_reports_eof() {
    let body = deterministic_body(512 * 1024);
    let mut src = open(&body);
    let total = src.byte_len().expect("len");
    src.seek(SeekTarget::Start(total)).expect("seek to end");

    let mut buf = [0u8; 64];
    let n = read(&mut src, &body, &mut buf).expect("read at eof");
    assert_eq!(n, 0, "read at EOF must return 0, got {n}");
}

#[test]
fn server_without_accept_ranges_is_not_seekable() {
    let body = deterministic_body(128 * 1024);
    let reply = HttpReply {
        status: 200,
        accept_ranges: None,
        content_range: None,
        content_length: Some(body.len().to_string()),
        body: body.clone(),
    };
    let src = HttpMediaSource::open("http://h/x".into(), reply).expect("open");
    assert!(!src.is_seekable(), "no accept-ranges -> not seekable");
    assert_eq!(src.byte_len(), Some(body.len() as u64));
}

#[test]
fn a_range_without_the_header_is_not_seekable() {
    let body = deterministic_body(1024);
    let mut reply = partial(&body, 0, 511);
    reply.accept_ranges = None;
    let src = HttpMediaSource::open("http://h/x".into(), reply).expect("open");
    assert!(!src.is_seekable());
    let mut reply = partial(&body, 0, 511);
    reply.accept_ranges = Some("Bytes".into());
    assert!(HttpMediaSource::open("http://h/x".into(), reply).expect("open").is_seekable());
}

#[test]
fn whole_files_are_streamed_within_the_bound_of_the_cache() {
    let body = deterministic_body(2 * 1024 * 1024 + 5);
    let whole = || HttpReply {
        status: 200,
        accept_ranges: None,
        content_range: None,
        content_length: Some(body.len().to_string()),
        body: body.clone(),
    };
    let mut src = HttpMediaSource::open("http://h/x".into(), whole()).expect("open");
    assert_eq!(src.url(), "http://h/x");
    assert_eq!(src.cached_pages() as u64, PREFETCH_BYTES / PAGE_SIZE);
    let mut got = vec![0u8; body.len()];
    let mut filled = 0;
    while filled < got.len() {
        let n = match src.begin_read(&mut got[filled..]) {
            ReadStep::Done(n) => n,
            ReadStep::Fetch { lo, .. } => {
                src.finish_read(lo, whole(), &mut got[filled..]).expect("read")
            }
            ReadStep::Failed(e) => panic!("{e:?}"),
        };
        assert!(n > 0);
        assert!(src.cached_pages() <= MAX_CACHED_PAGES);
        filled += n;
    }
    assert_eq!(got, body);
}

#[test]
fn mid_body_transport_failure_surfaces_as_io_error() {
    let body = deterministic_body(2 * 1024 * 1024);
    let mut src = open(&body);
    src.seek(SeekTarget::Start(1024 * 1024)).expect("seek");
    let mut buf = [0u8; 1024];
    match src.begin_read(&mut buf) {
        ReadStep::Fetch { lo, .. } => {
            let mut reply = partial(&body, lo, lo);
            reply.body.clear();
            assert_eq!(
                src.finish_read(lo, reply, &mut buf),
                Err(SourceError::NotCovered(1024 * 1024))
            );
        }
        other => panic!("expected Fetch, got {other:?}"),
    }
    let refused = HttpReply {
        status: 503,
        accept_ranges: None,
        content_range: None,
        content_length: None,
        body: vec![],
    };
    assert!(matches!(
        HttpMediaSource::open("u".into(), refused),
        Err(SourceError::Status(503))
    ));
}

#[test]
fn cache_hit_avoids_second_network_call() {
    let body = deterministic_body(256 * 1024);
    let mut src = open(&body);
    let mut buf = vec![0u8; 200 * 1024];
    assert_eq!(read_cached(&mut src, &mut buf), buf.len());
    assert_eq!(&buf[..], &body[..200 * 1024]);
}

#[test]
fn seek_back_reuses_cached_pages() {
    let body = deterministic_body(256 * 1024);
    let mut src = open(&body);
    let mut first = vec![0u8; 4096];
    read_cached(&mut src, &mut first);
    src.seek(SeekTarget::Start(0)).expect("rewind");
    let mut second = vec![0u8; 4096];
    read_cached(&mut src, &mut second);
    assert_eq!(first, second);
    assert_eq!(&first[..], &body[..4096]);
}

#[test]
fn misses_are_fetched_from_their_page_on() {
    let body = deterministic_body(2 * 1024 * 1024);
    let mut src = open(&body);
    assert_eq!(src.url(), "http://h/x.mp3");
    assert_eq!(src.cached_pages(), 4);
    let mut buf = [0u8; 8];
    src.seek(SeekTarget::Start(300_000)).unwrap();
    match src.begin_read(&mut buf) {
        ReadStep::Fetch { lo, hi } => {
            assert!(lo <= 300_000 && 300_000 <= hi);
            assert_eq!(lo % PAGE_SIZE, 0);
            assert!(hi - lo < FETCH_BYTES);
        }
        other => panic!("expected Fetch, got {other:?}"),
    }
    assert_eq!(src.position(), 300_000);
}

#[test]
fn the_cache_is_bounded() {
    let body = deterministic_body(4 * 1024 * 1024);
    let mut src = open(&body);
    let mut buf = vec![0u8; 65_536];
    let mut at = 0usize;
    loop {
        let n = read(&mut src, &body, &mut buf).unwrap();
        if n == 0 {
            break;
        }
        assert_eq!(&buf[..n], &body[at..at + n]);
        at += n;
        assert!(src.cached_pages() <= MAX_CACHED_PAGES);
    }
    assert_eq!(at, body.len());
}

#[test]
fn seeks_count_from_start_end_and_here() {
    let body = deterministic_body(1_000);
    let mut src = open(&body);
    assert_eq!(src.seek(SeekTarget::End(-10)), Ok(990));
    assert_eq!(src.seek(SeekTarget::Current(5)), Ok(995));
    assert_eq!(src.seek(SeekTarget::Current(-2_000)), Ok(0));
    let mut unknown = HttpMediaSource::open(
        "u".into(),
        HttpReply {
            status: 200,
            accept_ranges: None,
            content_range: None,
            content_length: None,
            body: body.clone(),
        },
    )
    .unwrap();
    assert_eq!(unknown.seek(SeekTarget::End(0)), Err(SourceError::UnknownLength));
}

#[test]
fn ranges_are_written_and_lengths_are_parsed() {
    assert_eq!(range_header(0, 262_143), "bytes=0-262143");
    let total = |status, range: Option<&str>, length: Option<&str>| {
        let range = range.map(|x| x.to_string());
        let length = length.map(|x| x.to_string());
        parse_total_length(status, range.as_ref(), length.as_ref())
    };
    assert_eq!(total(206, Some("bytes 0-9/1234"), Some("10")), Some(1234));
    assert_eq!(total(200, None, Some("77")), Some(77));
    assert_eq!(total(206, None, Some("77")), None);
    assert_eq!(total(206, Some("bytes 0-9/*"), None), None);
    assert_eq!(total(200, Some("bytes 0-9/*"), Some("5")), Some(5));
}

#[test]
fn bodies_are_sliced_into_pages() {
    let mut pages: VecDeque<Page> = VecDeque::new();
    let body = deterministic_body(70_000);
    slice_into_pages(0, &body, &mut pages);
    assert_eq!(pages.len(), 2);
    assert_eq!((pages[0].start, pages[0].bytes.len()), (0, 65_536));
    assert_eq!((pages[1].start, pages[1].bytes.len()), (65_536, 4_464));
    assert_eq!(pages[1].bytes[..], body[65_536..]);
}
