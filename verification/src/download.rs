//! Download accounting: which models are being fetched, their progress,
//! cancellation, and the progress events a transfer emits.
//!
//! The shell streams the bytes; every decision — rejecting a duplicate
//! download, honoring a cancellation, throttling progress events,
//! cleaning the tracking entries — is taken here.

use vstd::prelude::*;

verus! {

use crate::model::{DownloadProgressPayload, ModelCatalogEntry, ModelFile};
use crate::text::{concat_str, str_eq, u64_to_string, dec_str};

/// A progress event is emitted when the per-file byte count crosses a
/// multiple of this boundary.
pub const PROGRESS_EMIT_BOUNDARY: u64 = 102400;

/// One in-flight download: its model id, its cancellation token, and its
/// progress in basis points (hundredths of a percent).
pub struct DownloadEntry {
    pub model_id: String,
    pub cancel_requested: bool,
    pub percent_bp: u32,
}

/// The registry of in-flight downloads; a model id is present exactly
/// while one `download` call for it runs.
pub struct DownloadRegistry {
    pub entries: Vec<DownloadEntry>,
}

impl DownloadRegistry {
    /// The ids of the in-flight downloads.
    pub open spec fn ids(self) -> Seq<Seq<char>> {
        self.entries@.map_values(|e: DownloadEntry| e.model_id@)
    }

    /// Each in-flight model id occurs at most once.
    pub open spec fn wf(self) -> bool {
        forall|i: int, j: int|
            0 <= i < j < self.ids().len() ==> self.ids()[i] != self.ids()[j]
    }

    /// A registry with no downloads.
    pub fn new() -> (r: Self)
        ensures
            r.entries@.len() == 0,
            r.wf(),
    {
        let r = DownloadRegistry { entries: Vec::new() };
        proof {
            assert(r.ids() =~= Seq::<Seq<char>>::empty());
        }
        r
    }

    /// Whether this model is being downloaded.
    pub fn is_active(&self, model_id: &str) -> (r: bool)
        ensures
            r == self.ids().contains(model_id@),
    {
        let mut i: usize = 0;
        while i < self.entries.len()
            invariant
                0 <= i <= self.entries@.len(),
                forall|k: int| 0 <= k < i ==> self.ids()[k] != model_id@,
            decreases self.entries@.len() - i,
        {
            if str_eq(self.entries[i].model_id.as_str(), model_id) {
                proof {
                    assert(self.ids()[i as int] == model_id@);
                }
                return true;
            }
            i += 1;
        }
        proof {
            assert forall|k: int| 0 <= k < self.ids().len() implies self.ids()[k] != model_id@ by {}
        }
        false
    }

    /// Registers a new download with a fresh cancellation token and a
    /// zero progress entry; a model already being downloaded is rejected
    /// unchanged, with no queuing.
    pub fn begin(&mut self, model_id: &str) -> (r: Result<(), String>)
        requires
            old(self).wf(),
        ensures
            final(self).wf(),
            r is Err <==> old(self).ids().contains(model_id@),
            r is Err ==> *final(self) == *old(self) && r->Err_0@
                == "Model is already being downloaded"@,
            r is Ok ==> {
                &&& final(self).entries@.len() == old(self).entries@.len() + 1
                &&& final(self).entries@.drop_last() == old(self).entries@
                &&& final(self).entries@.last().model_id@ == model_id@
                &&& !final(self).entries@.last().cancel_requested
                &&& final(self).entries@.last().percent_bp == 0u32
                &&& final(self).ids() == old(self).ids().push(model_id@)
            },
    {
        if self.is_active(model_id) {
            return Err("Model is already being downloaded".to_owned());
        }
        let ghost before = self.ids();
        self.entries.push(DownloadEntry {
            model_id: model_id.to_owned(),
            cancel_requested: false,
            percent_bp: 0,
        });
        proof {
            assert(self.ids() =~= before.push(model_id@));
            assert(self.entries@.drop_last() =~= old(self).entries@);
            assert forall|i: int, j: int| 0 <= i < j < self.ids().len() implies self.ids()[i]
                != self.ids()[j] by {
                if j == self.ids().len() - 1 {
                    assert(self.ids()[i] == before[i]);
                    assert(before.contains(before[i]));
                }
            }
        }
        Ok(())
    }

    /// Requests cancellation of this model's download: sets its token if
    /// one is registered, and does nothing otherwise.
    pub fn cancel(&mut self, model_id: &str)
        requires
            old(self).wf(),
        ensures
            final(self).wf(),
            final(self).ids() == old(self).ids(),
            final(self).entries@.len() == old(self).entries@.len(),
            forall|k: int|
                0 <= k < old(self).entries@.len() ==> {
                    &&& (#[trigger] final(self).entries@[k]).model_id@ == old(self).entries@[k].model_id@
                    &&& final(self).entries@[k].percent_bp == old(self).entries@[k].percent_bp
                    &&& final(self).entries@[k].cancel_requested == (old(self).entries@[k].cancel_requested || old(self).entries@[k].model_id@ == model_id@)
                },
    {
        let ghost old_entries = self.entries@;
        let mut i: usize = 0;
        while i < self.entries.len()
            invariant
                0 <= i <= self.entries@.len(),
                self.entries@.len() == old_entries.len(),
                forall|k: int|
                    0 <= k < old_entries.len() ==> {
                        &&& (#[trigger] self.entries@[k]).model_id@ == old_entries[k].model_id@
                        &&& self.entries@[k].percent_bp == old_entries[k].percent_bp
                    },
                forall|k: int|
                    0 <= k < i ==> (#[trigger] self.entries@[k]).cancel_requested == (
                    old_entries[k].cancel_requested || old_entries[k].model_id@ == model_id@),
                forall|k: int|
                    i <= k < old_entries.len() ==> (#[trigger] self.entries@[k]).cancel_requested
                        == old_entries[k].cancel_requested,
            decreases self.entries@.len() - i,
        {
            if str_eq(self.entries[i].model_id.as_str(), model_id) {
                let e = &mut self.entries[i];
                e.cancel_requested = true;
            }
            i += 1;
        }
        proof {
            assert(self.ids() =~= old(self).ids());
        }
    }

    /// Whether this model's download has been asked to stop.
    pub fn cancel_requested(&self, model_id: &str) -> (r: bool)
        ensures
            r == exists|k: int|
                0 <= k < self.entries@.len() && (#[trigger] self.entries@[k]).model_id@ == model_id@
                    && self.entries@[k].cancel_requested,
    {
        let mut i: usize = 0;
        while i < self.entries.len()
            invariant
                0 <= i <= self.entries@.len(),
                forall|k: int|
                    0 <= k < i ==> !((#[trigger] self.entries@[k]).model_id@ == model_id@
                        && self.entries@[k].cancel_requested),
            decreases self.entries@.len() - i,
        {
            if str_eq(self.entries[i].model_id.as_str(), model_id)
                && self.entries[i].cancel_requested {
                return true;
            }
            i += 1;
        }
        false
    }

    /// Records this model's progress, in basis points.
    pub fn set_progress(&mut self, model_id: &str, percent_bp: u32)
        requires
            old(self).wf(),
        ensures
            final(self).wf(),
            final(self).entries@.len() == old(self).entries@.len(),
            forall|k: int|
                0 <= k < old(self).entries@.len() ==> {
                    &&& (#[trigger] final(self).entries@[k]).model_id@ == old(self).entries@[k].model_id@
                    &&& final(self).entries@[k].cancel_requested == old(self).entries@[k].cancel_requested
                    &&& final(self).entries@[k].percent_bp == if old(self).entries@[k].model_id@
                        == model_id@ {
                        percent_bp
                    } else {
                        old(self).entries@[k].percent_bp
                    }
                },
    {
        let ghost old_entries = self.entries@;
        let mut i: usize = 0;
        while i < self.entries.len()
            invariant
                0 <= i <= self.entries@.len(),
                self.entries@.len() == old_entries.len(),
                forall|k: int|
                    0 <= k < old_entries.len() ==> {
                        &&& (#[trigger] self.entries@[k]).model_id@ == old_entries[k].model_id@
                        &&& self.entries@[k].cancel_requested == old_entries[k].cancel_requested
                    },
                forall|k: int|
                    0 <= k < i ==> (#[trigger] self.entries@[k]).percent_bp == (
                    if old_entries[k].model_id@ == model_id@ {
                        percent_bp
                    } else {
                        old_entries[k].percent_bp
                    }),
                forall|k: int|
                    i <= k < old_entries.len() ==> (#[trigger] self.entries@[k]).percent_bp
                        == old_entries[k].percent_bp,
            decreases self.entries@.len() - i,
        {
            if str_eq(self.entries[i].model_id.as_str(), model_id) {
                let e = &mut self.entries[i];
                e.percent_bp = percent_bp;
            }
            i += 1;
        }
        proof {
            assert(self.ids() =~= old(self).ids());
        }
    }

    /// Clears this model's tracking entry; absent ids are left alone.
    pub fn remove(&mut self, model_id: &str)
        requires
            old(self).wf(),
        ensures
            final(self).wf(),
            !final(self).ids().contains(model_id@),
            final(self).entries@ == old(self).entries@.filter(
                |e: DownloadEntry| e.model_id@ != model_id@,
            ),
    {
        let ghost old_entries = self.entries@;
        let ghost pred = |e: DownloadEntry| e.model_id@ != model_id@;
        let mut kept: Vec<DownloadEntry> = Vec::new();
        proof {
            reveal(Seq::filter);
            assert(old_entries.take(0int) =~= Seq::<DownloadEntry>::empty());
            assert(kept@ =~= old_entries.take(0int).filter(pred));
        }
        let n = self.entries.len();
        let mut i: usize = 0;
        while i < n
            invariant
                0 <= i <= n,
                n == self.entries@.len(),
                self.entries@ == old_entries,
                pred == (|e: DownloadEntry| e.model_id@ != model_id@),
                kept@ == old_entries.take(i as int).filter(pred),
            decreases n - i,
        {
            let ghost prefix = old_entries.take(i as int);
            proof {
                assert(old_entries.take(i as int + 1) =~= prefix.push(old_entries[i as int]));
                lemma_filter_push_entry(prefix, pred, old_entries[i as int]);
            }
            if !str_eq(self.entries[i].model_id.as_str(), model_id) {
                let e = DownloadEntry {
                    model_id: self.entries[i].model_id.clone(),
                    cancel_requested: self.entries[i].cancel_requested,
                    percent_bp: self.entries[i].percent_bp,
                };
                let ghost kbefore = kept@;
                proof {
                    assert(pred(old_entries[i as int]));
                }
                kept.push(e);
                proof {
                    assert(e == old_entries[i as int]);
                    assert(kept@ =~= kbefore.push(old_entries[i as int]));
                }
            }
            i += 1;
        }
        proof {
            assert(old_entries.take(n as int) =~= old_entries);
        }
        self.entries = kept;
        proof {
            lemma_filter_keeps(old_entries, pred, model_id@);
            assert forall|a: int, b: int|
                0 <= a < b < self.ids().len() implies self.ids()[a] != self.ids()[b] by {
                assert(self.ids()[a] == self.entries@[a].model_id@);
                assert(self.ids()[b] == self.entries@[b].model_id@);
                assert forall|x: int, y: int|
                    0 <= x < y < old_entries.len() implies (#[trigger] old_entries[x]).model_id@
                        != (#[trigger] old_entries[y]).model_id@ by {
                    assert(old(self).ids()[x] == old_entries[x].model_id@);
                    assert(old(self).ids()[y] == old_entries[y].model_id@);
                }
                lemma_filter_distinct(old_entries, pred, a, b);
            }
        }
    }
}

/// Filtering a sequence extended by one entry keeps the filtered prefix
/// and appends the entry exactly when it satisfies the predicate.
proof fn lemma_filter_push_entry(
    s: Seq<DownloadEntry>,
    pred: spec_fn(DownloadEntry) -> bool,
    x: DownloadEntry,
)
    ensures
        s.push(x).filter(pred) == if pred(x) {
            s.filter(pred).push(x)
        } else {
            s.filter(pred)
        },
{
    reveal(Seq::filter);
    assert(s.push(x).drop_last() =~= s);
    assert(s.push(x).last() == x);
}

/// Every entry of the filtered registry satisfies the predicate, so the
/// removed id is gone.
proof fn lemma_filter_keeps(
    s: Seq<DownloadEntry>,
    pred: spec_fn(DownloadEntry) -> bool,
    gone: Seq<char>,
)
    requires
        forall|e: DownloadEntry| #[trigger] pred(e) <==> e.model_id@ != gone,
    ensures
        !s.filter(pred).map_values(|e: DownloadEntry| e.model_id@).contains(gone),
{
    let f = s.filter(pred);
    let ids = f.map_values(|e: DownloadEntry| e.model_id@);
    assert forall|k: int| 0 <= k < ids.len() implies ids[k] != gone by {
        s.lemma_filter_pred(pred, k);
        assert(ids[k] == f[k].model_id@);
    }
    if ids.contains(gone) {
        let k = choose|k: int| 0 <= k < ids.len() && ids[k] == gone;
        assert(false);
    }
}

/// Distinct positions of a filtered unique-id registry carry distinct ids.
proof fn lemma_filter_distinct(
    s: Seq<DownloadEntry>,
    pred: spec_fn(DownloadEntry) -> bool,
    i: int,
    j: int,
)
    requires
        forall|a: int, b: int|
            0 <= a < b < s.len() ==> (#[trigger] s[a]).model_id@ != (#[trigger] s[b]).model_id@,
        0 <= i < j < s.filter(pred).len(),
    ensures
        s.filter(pred)[i].model_id@ != s.filter(pred)[j].model_id@,
    decreases s.len(),
{
    reveal(Seq::filter);
    if s.len() == 0 {
    } else {
        let last = s.last();
        let front = s.drop_last();
        let f = s.filter(pred);
        if pred(last) {
            assert(f == front.filter(pred).push(last));
            if j < f.len() - 1 {
                lemma_filter_distinct(front, pred, i, j);
                assert(f[i] == front.filter(pred)[i]);
                assert(f[j] == front.filter(pred)[j]);
            } else {
                // f[j] is the last entry of s; f[i] comes from the front
                assert(f[i] == front.filter(pred)[i]);
                lemma_filter_elem(front, pred, i);
                let k = choose|k: int|
                    0 <= k < front.len() && front[k] == front.filter(pred)[i];
                assert(s[k] == front[k]);
                assert(f[j] == last);
                assert(s[s.len() - 1] == last);
                assert(s[k].model_id@ != s[s.len() - 1].model_id@);
            }
        } else {
            assert(f == front.filter(pred));
            lemma_filter_distinct(front, pred, i, j);
        }
    }
}

/// Every entry of a filtered sequence occurs in the sequence it was
/// filtered from.
proof fn lemma_filter_elem(
    s: Seq<DownloadEntry>,
    pred: spec_fn(DownloadEntry) -> bool,
    i: int,
)
    requires
        0 <= i < s.filter(pred).len(),
    ensures
        exists|k: int| 0 <= k < s.len() && s[k] == s.filter(pred)[i],
    decreases s.len(),
{
    reveal(Seq::filter);
    if s.len() == 0 {
    } else {
        let last = s.last();
        let front = s.drop_last();
        let f = s.filter(pred);
        if pred(last) {
            if i < f.len() - 1 {
                assert(f[i] == front.filter(pred)[i]);
                lemma_filter_elem(front, pred, i);
                let k = choose|k: int| 0 <= k < front.len() && front[k] == front.filter(pred)[i];
                assert(s[k] == f[i]);
            } else {
                assert(s[s.len() - 1] == f[i]);
            }
        } else {
            assert(f[i] == front.filter(pred)[i]);
            lemma_filter_elem(front, pred, i);
            let k = choose|k: int| 0 <= k < front.len() && front[k] == front.filter(pred)[i];
            assert(s[k] == f[i]);
        }
    }
}

/// The ordered list of files one download fetches, with the running byte
/// counters the progress computation uses.
pub struct DownloadTask {
    pub model_id: String,
    pub files: Vec<ModelFile>,
    pub total_bytes: u64,
    pub downloaded: u64,
    pub file_downloaded: u64,
}

/// The progress of a transfer in basis points (hundredths of a percent):
/// zero while nothing is known of the total.
pub open spec fn spec_percent_bp(downloaded: nat, total: nat) -> nat {
    if total == 0 {
        0
    } else if downloaded * 10000 / total > 0xffff_ffff {
        0xffff_ffff
    } else {
        downloaded * 10000 / total
    }
}

/// The mean transfer speed in bytes per second; zero while no time has
/// passed.
pub open spec fn spec_speed_bps(downloaded: nat, elapsed_millis: nat) -> nat {
    if elapsed_millis == 0 {
        0
    } else if downloaded * 1000 / elapsed_millis > 0xffff_ffff_ffff_ffff {
        0xffff_ffff_ffff_ffff
    } else {
        downloaded * 1000 / elapsed_millis
    }
}

impl DownloadTask {
    /// Plans one download: the model file, then the vision projector when
    /// the entry has one, with the byte total of all files.
    pub fn plan(entry: &ModelCatalogEntry) -> (r: DownloadTask)
        requires
            entry.files.model.size_bytes + (match entry.files.mmproj {
                Some(m) => m.size_bytes as int,
                None => 0int,
            }) <= u64::MAX,
        ensures
            r.model_id@ == entry.id@,
            r.downloaded == 0u64,
            r.file_downloaded == 0u64,
            r.total_bytes as int == entry.files.model.size_bytes + (match entry.files.mmproj {
                Some(m) => m.size_bytes as int,
                None => 0int,
            }),
            r.files@.len() == match entry.files.mmproj {
                Some(_) => 2int,
                None => 1int,
            },
            r.files@[0].filename@ == entry.files.model.filename@,
            r.files@[0].url@ == entry.files.model.url@,
            match entry.files.mmproj {
                Some(m) => r.files@[1].filename@ == m.filename@ && r.files@[1].url@ == m.url@,
                None => true,
            },
    {
        let mut files: Vec<ModelFile> = Vec::new();
        files.push(ModelFile {
            filename: entry.files.model.filename.clone(),
            url: entry.files.model.url.clone(),
            size_bytes: entry.files.model.size_bytes,
        });
        let total = match &entry.files.mmproj {
            Some(m) => {
                files.push(ModelFile {
                    filename: m.filename.clone(),
                    url: m.url.clone(),
                    size_bytes: m.size_bytes,
                });
                entry.files.model.size_bytes + m.size_bytes
            },
            None => entry.files.model.size_bytes,
        };
        DownloadTask {
            model_id: entry.id.clone(),
            files,
            total_bytes: total,
            downloaded: 0,
            file_downloaded: 0,
        }
    }

    /// Resets the per-file byte counter when the next file starts.
    pub fn start_file(&mut self)
        ensures
            *final(self) == (DownloadTask { file_downloaded: 0u64, ..*old(self) }),
    {
        self.file_downloaded = 0;
    }

    /// Accounts one received chunk and decides whether to emit a progress
    /// event: one is due exactly when this chunk crosses a fixed-size
    /// boundary of the current file's byte count, which bounds the event
    /// volume whatever chunk size the transport picks.
    pub fn on_chunk(&mut self, chunk_len: u64, elapsed_millis: u64) -> (emit: Option<
        DownloadProgressPayload,
    >)
        requires
            old(self).downloaded + chunk_len <= u64::MAX,
            old(self).file_downloaded + chunk_len <= u64::MAX,
        ensures
            final(self).downloaded == old(self).downloaded + chunk_len,
            final(self).file_downloaded == old(self).file_downloaded + chunk_len,
            final(self).model_id == old(self).model_id,
            final(self).files == old(self).files,
            final(self).total_bytes == old(self).total_bytes,
            emit is Some <==> (final(self).file_downloaded as int % (PROGRESS_EMIT_BOUNDARY as int)
                < chunk_len as int),
            emit matches Some(p) ==> {
                &&& p.model_id@ == old(self).model_id@
                &&& p.downloaded_bytes == final(self).downloaded
                &&& p.total_bytes == old(self).total_bytes
                &&& p.percent_bp as int == spec_percent_bp(
                    final(self).downloaded as nat,
                    old(self).total_bytes as nat,
                )
                &&& p.speed_bps as int == spec_speed_bps(
                    final(self).downloaded as nat,
                    elapsed_millis as nat,
                )
            },
    {
        self.downloaded = self.downloaded + chunk_len;
        self.file_downloaded = self.file_downloaded + chunk_len;
        if self.file_downloaded % PROGRESS_EMIT_BOUNDARY < chunk_len {
            let percent_bp: u32 = if self.total_bytes == 0 {
                0
            } else {
                let q: u128 = (self.downloaded as u128) * 10000 / (self.total_bytes as u128);
                if q > 0xffff_ffff {
                    0xffff_ffff
                } else {
                    q as u32
                }
            };
            let speed_bps: u64 = if elapsed_millis == 0 {
                0
            } else {
                let q: u128 = (self.downloaded as u128) * 1000 / (elapsed_millis as u128);
                if q > 0xffff_ffff_ffff_ffff {
                    0xffff_ffff_ffff_ffff
                } else {
                    q as u64
                }
            };
            Some(DownloadProgressPayload {
                model_id: self.model_id.clone(),
                downloaded_bytes: self.downloaded,
                total_bytes: self.total_bytes,
                percent_bp,
                speed_bps,
            })
        } else {
            None
        }
    }
}

/// The error a cancelled download returns.
pub fn download_cancelled_error() -> (r: String)
    ensures
        r@ == "Download cancelled"@,
{
    "Download cancelled".to_owned()
}

/// Checks the cancellation token of an in-flight download: when it is
/// set, the tracking entries are cleared and the cancellation error comes
/// back, telling the shell to delete the partial model directory.
pub fn check_cancellation(reg: &mut DownloadRegistry, model_id: &str) -> (r: Result<(), String>)
    requires
        old(reg).wf(),
    ensures
        final(reg).wf(),
        r is Err <==> exists|k: int|
            0 <= k < old(reg).entries@.len() && (#[trigger] old(reg).entries@[k]).model_id@
                == model_id@ && old(reg).entries@[k].cancel_requested,
        r is Ok ==> *final(reg) == *old(reg),
        r is Err ==> r->Err_0@ == "Download cancelled"@ && !final(reg).ids().contains(model_id@)
            && final(reg).entries@ == old(reg).entries@.filter(
            |e: DownloadEntry| e.model_id@ != model_id@,
        ),
{
    if reg.cancel_requested(model_id) {
        reg.remove(model_id);
        Err(download_cancelled_error())
    } else {
        Ok(())
    }
}

/// Judges one HTTP response status: any non-success status clears the
/// tracking entries and fails the download with the status in the error,
/// telling the shell to delete the partial model directory.
pub fn on_http_status(reg: &mut DownloadRegistry, model_id: &str, status: u16) -> (r: Result<
    (),
    String,
>)
    requires
        old(reg).wf(),
    ensures
        final(reg).wf(),
        r is Ok <==> 200 <= status < 300,
        r is Ok ==> *final(reg) == *old(reg),
        r is Err ==> r->Err_0@ == "HTTP error: "@ + dec_str(status as nat) && !final(reg).ids().contains(model_id@) && final(reg).entries@ == old(reg).entries@.filter(
            |e: DownloadEntry| e.model_id@ != model_id@,
        ),
{
    if 200 <= status && status < 300 {
        Ok(())
    } else {
        reg.remove(model_id);
        let code = u64_to_string(status as u64);
        Err(concat_str("HTTP error: ", code.as_str()))
    }
}

/// Ends a download that fetched every file: clears the tracking entries;
/// the shell then emits the completion event carrying the model id.
pub fn complete_download(reg: &mut DownloadRegistry, model_id: &str)
    requires
        old(reg).wf(),
    ensures
        final(reg).wf(),
        !final(reg).ids().contains(model_id@),
        final(reg).entries@ == old(reg).entries@.filter(
            |e: DownloadEntry| e.model_id@ != model_id@,
        ),
{
    reg.remove(model_id);
}

} // verus!
