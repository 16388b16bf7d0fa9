use vstd::prelude::*;
use vstd::string::*;
use crate::namer::{generate_name_on_disk, picked, taken};
use crate::text::{dec, decimal, ends_with};
use crate::url::Url;

verus! {

/// Length of the window over which throughput is measured and capped, in milliseconds.
pub const WINDOW_MS: u64 = 1000;

/// How long a paused transfer waits after discarding a chunk, in milliseconds.
pub const PAUSE_POLL_MS: u64 = 2000;

/// How many redirects a transfer request follows.
pub const REDIRECT_LIMIT: usize = 15;

/// How long a probe request may take, in seconds.
pub const PROBE_TIMEOUT_SECS: u64 = 7;

/// The extension of a sidecar record's file.
pub const SIDECAR_EXTENSION: &'static str = ".metadl";

pub open spec fn sidecar_extension() -> Seq<char> {
    seq!['.', 'm', 'e', 't', 'a', 'd', 'l']
}

/// The durable record kept beside a download, written once when it starts.
#[derive(Debug, Clone)]
pub struct MetaData {
    pub link: String,
    pub url_name: String,
    pub name_on_disk: String,
    pub content_length: usize,
    pub range_support: bool,
    pub speed: usize,
}

/// One download: where it comes from, where it goes, and its progress.
#[derive(Debug, Clone)]
pub struct File2Dl {
    pub url: Url,
    pub name_on_disk: String,
    /// Cap in bytes per second; 0 means none.
    pub speed: usize,
    pub size_on_disk: usize,
    pub dl_dir: String,
    /// Throughput measured over the last full window.
    pub bytes_per_sec: usize,
    pub running: bool,
    pub complete: bool,
}

/// The measuring window of a running transfer, with times in milliseconds
/// on a monotonic clock.
#[derive(Debug, Clone, Copy, PartialEq, Eq, Structural)]
pub struct Meter {
    pub accumulated: usize,
    pub window_start: u64,
}

/// Two probes of one link agree.
pub open spec fn same_url(a: Url, b: Url) -> bool {
    &&& a.link@ == b.link@
    &&& a.filename@ == b.filename@
    &&& a.content_length == b.content_length
    &&& a.range_support == b.range_support
}

/// `m` is the record that task `t` persists.
pub open spec fn records(t: File2Dl, m: MetaData) -> bool {
    &&& m.link@ == t.url.link@
    &&& m.url_name@ == t.url.filename@
    &&& m.name_on_disk@ == t.name_on_disk@
    &&& m.content_length == t.url.content_length
    &&& m.range_support == t.url.range_support
    &&& m.speed == t.speed
}

/// Recovery round trip: a task rebuilt from the record it persisted and from
/// a file of `size` bytes has exactly those bytes on disk, is complete
/// exactly when they make up the announced length, and keeps its link, its
/// cap and, when it can resume, its file.
pub proof fn lemma_recovery_round_trip(
    t: File2Dl,
    m: MetaData,
    size: usize,
    listing: Seq<String>,
    r: File2Dl,
)
    requires
        records(t, m),
        recovered(t.dl_dir@, m, size, listing, r),
    ensures
        r.size_on_disk == size,
        r.complete <==> size == t.url.content_length,
        size < t.url.content_length ==> !r.complete,
        same_url(r.url, t.url),
        r.speed == t.speed,
        r.dl_dir@ == t.dl_dir@,
        t.url.range_support ==> r.name_on_disk@ == t.name_on_disk@,
{
}

/// A transfer that cannot resume, whose partial file is in the listing, is
/// rebuilt under another name, so the partial file is never appended to.
pub proof fn lemma_unresumable_renamed(
    dir: Seq<char>,
    m: MetaData,
    size: usize,
    listing: Seq<String>,
    r: File2Dl,
)
    requires
        !m.range_support,
        taken(listing, m.name_on_disk@),
        recovered(dir, m, size, listing, r),
    ensures
        r.name_on_disk@ != m.name_on_disk@,
        !taken(listing, r.name_on_disk@),
{
}

/// `r` is the task rebuilt from record `m` found in `dir`, whose file holds
/// `size` bytes and whose listing is `listing`.
pub open spec fn recovered(
    dir: Seq<char>,
    m: MetaData,
    size: usize,
    listing: Seq<String>,
    r: File2Dl,
) -> bool {
    &&& r.url.link@ == m.link@
    &&& r.url.filename@ == m.url_name@
    &&& r.url.content_length == m.content_length
    &&& r.url.range_support == m.range_support
    &&& r.dl_dir@ == dir
    &&& r.speed == m.speed
    &&& r.size_on_disk == size
    &&& r.bytes_per_sec == 0
    &&& !r.running
    &&& r.complete == (size == m.content_length)
    &&& if m.range_support {
        r.name_on_disk@ == m.name_on_disk@
    } else {
        !taken(listing, r.name_on_disk@) && picked(listing, m.name_on_disk@, r.name_on_disk@)
    }
}

/// The value of the `Range` header that resumes a transfer at `from`.
pub open spec fn range_value(from: nat, to: nat) -> Seq<char> {
    seq!['b', 'y', 't', 'e', 's', '='] + dec(from) + seq!['-'] + dec(to)
}

/// Whether a file name is that of a sidecar record.
pub open spec fn is_sidecar(name: Seq<char>) -> bool {
    sidecar_extension().len() <= name.len() && name.subrange(
        name.len() - sidecar_extension().len(),
        name.len() as int,
    ) == sidecar_extension()
}

/// The names of a listing that are sidecar records, in order.
pub open spec fn sidecar_names(names: Seq<String>) -> Seq<Seq<char>>
    decreases names.len(),
{
    if names.len() == 0 {
        Seq::empty()
    } else {
        let rest = sidecar_names(names.drop_last());
        if is_sidecar(names.last()@) {
            rest.push(names.last()@)
        } else {
            rest
        }
    }
}

/// The entries of a directory listing that are sidecar records.
pub fn select_metadata_files(names: &Vec<String>) -> (r: Vec<String>)
    ensures
        r@.map_values(|s: String| s@) == sidecar_names(names@),
{
    let mut r: Vec<String> = Vec::new();
    let mut i: usize = 0;
    while i < names.len()
        invariant
            i <= names@.len(),
            r@.map_values(|s: String| s@) == sidecar_names(names@.take(i as int)),
        decreases names@.len() - i,
    {
        proof {
            reveal_strlit(".metadl");
            assert(SIDECAR_EXTENSION@ =~= sidecar_extension());
            assert(names@.take(i + 1).drop_last() =~= names@.take(i as int));
        }
        if ends_with(names[i].as_str(), SIDECAR_EXTENSION) {
            r.push(names[i].clone());
            proof {
                assert(r@.map_values(|s: String| s@) =~= sidecar_names(names@.take(i as int)).push(
                    names@[i as int]@,
                ));
            }
        }
        i = i + 1;
    }
    proof {
        assert(names@.take(names@.len() as int) =~= names@);
    }
    r
}

fn copy_url(u: &Url) -> (r: Url)
    ensures
        same_url(r, *u),
{
    Url {
        link: u.link.clone(),
        filename: u.filename.clone(),
        content_length: u.content_length,
        range_support: u.range_support,
    }
}

impl File2Dl {
    /// A fresh task for a probed link, named so that it collides with nothing
    /// in the listing of `download_path`; all progress starts at zero.
    pub fn new(url: Url, download_path: &str, listing: &Vec<String>) -> (r: File2Dl)
        requires
            listing@.len() < usize::MAX,
        ensures
            same_url(r.url, url),
            r.dl_dir@ == download_path@,
            !taken(listing@, r.name_on_disk@),
            picked(listing@, url.filename@, r.name_on_disk@),
            r.speed == 0,
            r.size_on_disk == 0,
            r.bytes_per_sec == 0,
            !r.running,
            !r.complete,
    {
        let name_on_disk = generate_name_on_disk(url.filename.as_str(), listing);
        File2Dl {
            url,
            name_on_disk,
            speed: 0,
            size_on_disk: 0,
            dl_dir: String::from_str(download_path),
            bytes_per_sec: 0,
            running: false,
            complete: false,
        }
    }

    /// Flips the run flag.
    pub fn toggle_status(&mut self)
        ensures
            *final(self) == (File2Dl { running: !old(self).running, ..*old(self) }),
    {
        let status = self.running;
        self.running = !status;
    }

    /// Rebuilds a task from its sidecar record, the true size of its file and
    /// the listing of its directory. A transfer that cannot resume gets a
    /// fresh name, so that its partial file is never written into.
    pub fn from_metadata(dir: &str, m: &MetaData, size_on_disk: usize, listing: &Vec<String>) -> (r:
        File2Dl)
        requires
            listing@.len() < usize::MAX,
        ensures
            recovered(dir@, *m, size_on_disk, listing@, r),
    {
        let url = Url {
            link: m.link.clone(),
            filename: m.url_name.clone(),
            content_length: m.content_length,
            range_support: m.range_support,
        };
        let name_on_disk = if m.range_support {
            m.name_on_disk.clone()
        } else {
            generate_name_on_disk(m.name_on_disk.as_str(), listing)
        };
        let is_complete = size_on_disk == m.content_length;
        File2Dl {
            url,
            dl_dir: String::from_str(dir),
            speed: m.speed,
            bytes_per_sec: 0,
            name_on_disk,
            size_on_disk,
            running: false,
            complete: is_complete,
        }
    }

    /// The record to persist when a transfer starts.
    pub fn metadata(&self) -> (r: MetaData)
        ensures
            records(*self, r),
    {
        MetaData {
            link: self.url.link.clone(),
            url_name: self.url.filename.clone(),
            name_on_disk: self.name_on_disk.clone(),
            content_length: self.url.content_length,
            range_support: self.url.range_support,
            speed: self.speed,
        }
    }

    /// The file name of the sidecar record kept beside the download: the
    /// payload's name, hidden, with the sidecar extension.
    pub fn metadata_file_name(&self) -> (r: String)
        ensures
            r@ == seq!['.'] + self.name_on_disk@ + sidecar_extension(),
    {
        proof {
            reveal_strlit(".metadl");
            reveal_strlit(".");
            assert(SIDECAR_EXTENSION@ =~= sidecar_extension());
        }
        let mut r = String::from_str(".");
        r.append(self.name_on_disk.as_str());
        r.append(SIDECAR_EXTENSION);
        proof {
            assert(r@ =~= seq!['.'] + self.name_on_disk@ + sidecar_extension());
        }
        r
    }

    /// The `Range` header of the transfer request: from the bytes already on
    /// disk to the announced end, or none when the server has no ranges.
    pub fn range_header(&self) -> (r: Option<String>)
        ensures
            self.url.range_support ==> r is Some && r->0@ == range_value(
                self.size_on_disk as nat,
                self.url.content_length as nat,
            ),
            !self.url.range_support ==> r is None,
    {
        if !self.url.range_support {
            return None;
        }
        proof {
            reveal_strlit("bytes=");
            reveal_strlit("-");
        }
        let mut v = String::from_str("bytes=");
        let from = decimal(self.size_on_disk);
        v.append(from.as_str());
        v.append("-");
        let to = decimal(self.url.content_length);
        v.append(to.as_str());
        proof {
            assert(v@ =~= range_value(self.size_on_disk as nat, self.url.content_length as nat));
        }
        Some(v)
    }

    /// Called with each chunk pulled from the stream: says whether it is to be
    /// written. A paused task discards it and reports no throughput.
    pub fn chunk_arrived(&mut self) -> (write: bool)
        ensures
            write == old(self).running,
            *final(self) == (File2Dl {
                bytes_per_sec: if write { old(self).bytes_per_sec } else { 0 },
                ..*old(self)
            }),
    {
        if !self.running {
            self.bytes_per_sec = 0;
            return false;
        }
        true
    }

    /// Accounts for a chunk of `len` bytes written at time `now`. Publishes the
    /// throughput when a window has passed, and when the cap is reached returns
    /// how long to wait before the next window, which starts when the wait ends.
    pub fn record_written(&mut self, meter: &mut Meter, len: usize, now: u64) -> (wait: Option<u64>)
        requires
            old(self).size_on_disk + len <= usize::MAX,
            old(meter).accumulated + len <= usize::MAX,
            old(meter).window_start <= now,
        ensures
            ({
                let acc = old(meter).accumulated + len;
                let published = now - old(meter).window_start >= WINDOW_MS;
                let acc2 = if published { 0 } else { acc };
                let start2 = if published { now } else { old(meter).window_start };
                &&& *final(self) == (File2Dl {
                    size_on_disk: (old(self).size_on_disk + len) as usize,
                    bytes_per_sec: (if published { acc } else { old(self).bytes_per_sec as int }) as usize,
                    ..*old(self)
                })
                &&& final(meter).window_start == start2
                &&& if old(self).speed > 0 && acc2 >= old(self).speed {
                    &&& wait == Some(
                        (if now - start2 < WINDOW_MS { WINDOW_MS - (now - start2) } else { 0 }) as u64,
                    )
                    &&& final(meter).accumulated == 0
                } else {
                    &&& wait is None
                    &&& final(meter).accumulated == acc2
                }
            }),
            old(self).speed > 0 ==> (wait is Some || final(meter).accumulated < old(self).speed),
    {
        self.size_on_disk = self.size_on_disk + len;
        meter.accumulated = meter.accumulated + len;
        if now - meter.window_start >= WINDOW_MS {
            self.bytes_per_sec = meter.accumulated;
            meter.accumulated = 0;
            meter.window_start = now;
        }
        let speed_limit = self.speed;
        if speed_limit > 0 && meter.accumulated >= speed_limit {
            let elapsed = now - meter.window_start;
            let wait = if elapsed < WINDOW_MS { WINDOW_MS - elapsed } else { 0 };
            meter.accumulated = 0;
            return Some(wait);
        }
        None
    }

    /// Marks the end of the stream: complete, stopped, no throughput.
    pub fn finish(&mut self)
        ensures
            *final(self) == (File2Dl { complete: true, running: false, bytes_per_sec: 0, ..*old(self) }),
    {
        self.complete = true;
        self.running = false;
        self.bytes_per_sec = 0;
    }
}

impl Meter {
    /// A window that opens at `now`, with nothing counted yet.
    pub fn new(now: u64) -> (r: Meter)
        ensures
            r.accumulated == 0,
            r.window_start == now,
    {
        Meter { accumulated: 0, window_start: now }
    }

    /// Opens a new window at `now` after a wait for the cap.
    pub fn restart(&mut self, now: u64)
        ensures
            final(self).accumulated == 0,
            final(self).window_start == now,
    {
        self.accumulated = 0;
        self.window_start = now;
    }
}

} // verus!
