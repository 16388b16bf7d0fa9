use file2dl::namer::generate_name_on_disk;
use file2dl::text::{decimal, ends_with, parse_decimal};
use file2dl::url::{parse_name_from_url, range_probe_confirms, ParseHeaders, ResponseHeaders, Url, UrlError};
use file2dl::task::{select_metadata_files, File2Dl, MetaData, Meter};

fn headers(len: Option<&str>, ranges: Option<&str>, dispo: Option<&str>) -> ResponseHeaders {
    ResponseHeaders {
        content_length: len.map(|s| s.to_string()),
        accept_ranges: ranges.map(|s| s.to_string()),
        content_disposition: dispo.map(|s| s.to_string()),
    }
}

fn probed(link: &str, len: usize, ranges: bool) -> Url {
    Url {
        link: link.to_string(),
        filename: "archive.bin".to_string(),
        content_length: len,
        range_support: ranges,
    }
}

fn names(v: &[&str]) -> Vec<String> {
    v.iter().map(|s| s.to_string()).collect()
}

#[test]
fn free_name_is_kept() {
    assert_eq!(generate_name_on_disk("a.txt", &names(&["b.txt"])), "a.txt");
    assert_eq!(generate_name_on_disk("a.txt", &Vec::new()), "a.txt");
}

#[test]
fn repeated_collisions_number_upwards() {
    let mut listing = names(&["report.pdf", "other.pdf"]);
    let mut picked = Vec::new();
    for _ in 0..12 {
        let n = generate_name_on_disk("report.pdf", &listing);
        listing.push(n.clone());
        picked.push(n);
    }
    for (i, n) in picked.iter().enumerate() {
        assert_eq!(*n, format!("report_{}.pdf", i + 1));
    }
    for i in 0..picked.len() {
        for j in (i + 1)..picked.len() {
            assert_ne!(picked[i], picked[j]);
        }
    }
}

#[test]
fn collision_skips_taken_alternatives() {
    let listing = names(&["a.txt", "a_1.txt", "a_3.txt"]);
    assert_eq!(generate_name_on_disk("a.txt", &listing), "a_2.txt");
}

#[test]
fn collision_without_extension_keeps_trailing_dot() {
    let listing = names(&["name"]);
    assert_eq!(generate_name_on_disk("name", &listing), "name_1.");
}

#[test]
fn decimal_writing() {
    assert_eq!(decimal(0), "0");
    assert_eq!(decimal(7), "7");
    assert_eq!(decimal(1234), "1234");
    assert_eq!(decimal(usize::MAX), usize::MAX.to_string());
}

#[test]
fn decimal_reading() {
    assert_eq!(parse_decimal("2048"), Some(2048));
    assert_eq!(parse_decimal("+5"), Some(5));
    assert_eq!(parse_decimal("007"), Some(7));
    assert_eq!(parse_decimal(""), None);
    assert_eq!(parse_decimal("+"), None);
    assert_eq!(parse_decimal("-1"), None);
    assert_eq!(parse_decimal("12a"), None);
    assert_eq!(parse_decimal(" 12"), None);
    assert_eq!(parse_decimal(&usize::MAX.to_string()), Some(usize::MAX));
    assert_eq!(parse_decimal("99999999999999999999999"), None);
}

#[test]
fn suffix_test() {
    assert!(ends_with("a.metadl", ".metadl"));
    assert!(!ends_with("a.metadlx", ".metadl"));
    assert!(!ends_with("dl", ".metadl"));
    assert!(ends_with("x", ""));
}

#[test]
fn header_content_length() {
    assert_eq!(headers(Some("2048"), None, None).content_length(), Some(2048));
    assert_eq!(headers(Some("lots"), None, None).content_length(), None);
    assert_eq!(headers(None, None, None).content_length(), None);
}

#[test]
fn header_accept_ranges() {
    assert_eq!(headers(None, Some("bytes"), None).accept_ranges(), Some(true));
    assert_eq!(headers(None, Some("  bytes \t"), None).accept_ranges(), Some(true));
    assert_eq!(headers(None, Some("none"), None).accept_ranges(), Some(false));
    assert_eq!(headers(None, Some(""), None).accept_ranges(), Some(false));
    assert_eq!(headers(None, None, None).accept_ranges(), None);
}

#[test]
fn header_content_disposition() {
    let h = headers(None, None, Some("attachment; filename=\"report.pdf\""));
    assert_eq!(h.content_dispo(), Some("report.pdf".to_string()));
    assert_eq!(headers(None, None, Some("inline")).content_dispo(), None);
    assert_eq!(headers(None, None, None).content_dispo(), None);
}

#[test]
fn name_from_link() {
    assert_eq!(parse_name_from_url("http://example.org/archive.bin"), Some("archive.bin".to_string()));
    assert_eq!(parse_name_from_url("http://example.org/dir/my file-1.zip"), Some("my file-1.zip".to_string()));
    assert_eq!(parse_name_from_url("http://example.org/a.tar.gz"), None);
    assert_eq!(parse_name_from_url("http://example.org/"), None);
    assert_eq!(parse_name_from_url("archive.bin"), Some("archive.bin".to_string()));
}

#[test]
fn range_probe_compares_with_one_byte() {
    // A two-byte range request is confirmed by a one-byte body.
    assert!(range_probe_confirms(Some(1)));
    assert!(!range_probe_confirms(Some(2)));
    assert!(!range_probe_confirms(Some(0)));
    assert!(!range_probe_confirms(None));
}

#[test]
fn invalid_link_is_refused() {
    assert_eq!(Url::is_valid_url("not a url"), Err(UrlError::InvalidUrl));
    assert_eq!(Url::is_valid_url("http://example.org/archive.bin"), Ok(()));
    let h = headers(Some("10"), Some("bytes"), None);
    assert_eq!(Url::new("nothing", &h, None).err(), Some(UrlError::InvalidUrl));
}

#[test]
fn probe_prefers_disposition_and_falls_back() {
    let h = headers(None, None, Some("attachment; filename=\"data.csv\""));
    let u = Url::new("https://www.example.com/archive.bin", &h, Some(1)).unwrap();
    assert_eq!(u.filename, "data.csv");
    assert_eq!(u.content_length, 0);
    assert!(u.range_support);
    let u = Url::new("https://example.com/download", &headers(None, None, None), Some(2)).unwrap();
    assert_eq!(u.filename, "");
    assert!(!u.range_support);
    let u = Url::new("https://example.com/x.bin", &headers(None, Some("none"), None), Some(1)).unwrap();
    assert!(!u.range_support);
}

#[test]
fn end_to_end_download() {
    let h = headers(Some("2048"), Some("bytes"), None);
    let url = Url::new("http://example.org/archive.bin", &h, None).unwrap();
    assert_eq!(url.content_length, 2048);
    assert!(url.range_support);
    assert_eq!(url.filename, "archive.bin");
    assert_eq!(url.link, "http://example.org/archive.bin");
    let mut task = File2Dl::new(url, "downloads", &Vec::new());
    assert_eq!(task.name_on_disk, "archive.bin");
    assert_eq!(task.range_header(), Some("bytes=0-2048".to_string()));
    task.toggle_status();
    let mut meter = Meter::new(0);
    let mut now = 0u64;
    for len in [700usize, 1, 900, 447] {
        now += 30;
        assert!(task.chunk_arrived());
        assert_eq!(task.record_written(&mut meter, len, now), None);
    }
    task.finish();
    assert_eq!(task.size_on_disk, 2048);
    assert!(task.complete);
    assert!(!task.running);
    assert_eq!(task.bytes_per_sec, 0);
}

#[test]
fn resume_range_starts_at_bytes_on_disk() {
    let mut task = File2Dl::new(probed("http://example.org/archive.bin", 2048, true), "d", &Vec::new());
    task.size_on_disk = 1024;
    assert_eq!(task.range_header(), Some("bytes=1024-2048".to_string()));
    task.size_on_disk = 7;
    assert_eq!(task.range_header(), Some("bytes=7-2048".to_string()));
    let plain = File2Dl::new(probed("http://example.org/archive.bin", 2048, false), "d", &Vec::new());
    assert_eq!(plain.range_header(), None);
}

#[test]
fn recovery_round_trip() {
    let mut task = File2Dl::new(probed("http://example.org/archive.bin", 2048, true), "dl", &Vec::new());
    task.speed = 300;
    let m = task.metadata();
    assert_eq!(m.name_on_disk, "archive.bin");
    let listing = names(&["archive.bin", ".archive.bin.metadl"]);
    let partial = File2Dl::from_metadata("dl", &m, 1000, &listing);
    assert_eq!(partial.size_on_disk, 1000);
    assert!(!partial.complete);
    assert!(!partial.running);
    assert_eq!(partial.speed, 300);
    assert_eq!(partial.name_on_disk, "archive.bin");
    assert_eq!(partial.url.link, "http://example.org/archive.bin");
    assert_eq!(partial.dl_dir, "dl");
    let whole = File2Dl::from_metadata("dl", &m, 2048, &listing);
    assert_eq!(whole.size_on_disk, 2048);
    assert!(whole.complete);
}

#[test]
fn unresumable_recovery_is_renamed() {
    let m = MetaData {
        link: "http://example.org/archive.bin".to_string(),
        url_name: "archive.bin".to_string(),
        name_on_disk: "archive.bin".to_string(),
        content_length: 2048,
        range_support: false,
        speed: 0,
    };
    let listing = names(&["archive.bin", ".archive.bin.metadl"]);
    let t = File2Dl::from_metadata("dl", &m, 512, &listing);
    assert_eq!(t.name_on_disk, "archive_1.bin");
    assert!(!t.complete);
    assert_eq!(t.size_on_disk, 512);
}

#[test]
fn throughput_published_each_second() {
    let mut task = File2Dl::new(probed("http://example.org/archive.bin", 0, false), "d", &Vec::new());
    task.toggle_status();
    let mut meter = Meter::new(0);
    let mut published = Vec::new();
    let mut last = task.bytes_per_sec;
    for step in 1..=50u64 {
        let now = step * 100;
        assert!(task.chunk_arrived());
        assert_eq!(task.record_written(&mut meter, 1024, now), None);
        if task.bytes_per_sec != last || meter.window_start == now {
            published.push((now, task.bytes_per_sec));
            last = task.bytes_per_sec;
        }
    }
    assert_eq!(published.len(), 5);
    for (i, (at, value)) in published.iter().enumerate() {
        assert_eq!(*at, (i as u64 + 1) * 1000);
        assert!(*value >= 9 * 1024 && *value <= 11 * 1024);
    }
    assert_eq!(task.size_on_disk, 50 * 1024);
}

#[test]
fn rate_limit_holds_throughput() {
    let mut task = File2Dl::new(probed("http://example.org/archive.bin", 0, false), "d", &Vec::new());
    task.speed = 5000;
    task.toggle_status();
    let mut now = 0u64;
    let mut meter = Meter::new(now);
    while now < 5000 {
        assert!(task.chunk_arrived());
        if let Some(wait) = task.record_written(&mut meter, 700, now) {
            now += wait;
            meter.restart(now);
        }
        now += 1;
    }
    let rate = task.size_on_disk as f64 / (now as f64 / 1000.0);
    assert!(rate <= 5000.0 * 1.2, "rate {}", rate);
    assert!(rate >= 5000.0 * 0.8, "rate {}", rate);
}

#[test]
fn rate_limit_wait_is_rest_of_window() {
    let mut task = File2Dl::new(probed("http://example.org/a.bin", 0, false), "d", &Vec::new());
    task.speed = 5000;
    let mut meter = Meter::new(100);
    assert_eq!(task.record_written(&mut meter, 4000, 300), None);
    assert_eq!(meter.accumulated, 4000);
    assert_eq!(task.record_written(&mut meter, 1000, 400), Some(700));
    assert_eq!(meter.accumulated, 0);
    meter.restart(1100);
    assert_eq!(meter, Meter { accumulated: 0, window_start: 1100 });
}

#[test]
fn pause_discards_chunks() {
    let mut task = File2Dl::new(probed("http://example.org/archive.bin", 10240, true), "d", &Vec::new());
    task.toggle_status();
    let mut meter = Meter::new(0);
    let mut pulled = 0;
    let mut now = 0u64;
    for i in 0..10 {
        pulled += 1;
        now += 1100;
        if i == 3 {
            task.toggle_status();
        }
        if task.chunk_arrived() {
            assert_eq!(task.record_written(&mut meter, 1024, now), None);
        } else {
            assert_eq!(task.size_on_disk, 3072);
            assert_eq!(task.bytes_per_sec, 0);
        }
    }
    assert_eq!(pulled, 10);
    assert_eq!(task.size_on_disk, 3072);
    assert_eq!(task.bytes_per_sec, 0);
    assert!(!task.running);
}

#[test]
fn sidecar_files_are_selected() {
    let listing = names(&["a.bin", "a.bin.metadl", "b.metadl", "c.metadl.txt", ".metadl"]);
    assert_eq!(select_metadata_files(&listing), names(&["a.bin.metadl", "b.metadl", ".metadl"]));
}

#[test]
fn sidecar_file_name() {
    let task = File2Dl::new(probed("http://example.org/archive.bin", 1, true), "d", &Vec::new());
    assert_eq!(task.metadata_file_name(), ".archive.bin.metadl");
}
