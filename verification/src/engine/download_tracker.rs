//! Download records and their state changes, plus the pause/cancel signals
//! read by running downloads.
use vstd::prelude::*;
use crate::dict::{Dict, index_of_key, lookup, inserted};
use crate::text::{clone_opt, concat, concat3, views, dec_of, to_decimal};

verus! {

/// Where a download is.
#[derive(Debug, Clone, Copy, PartialEq, Eq, Structural)]
pub enum DownloadStatus {
    Queued,
    Pending,
    Downloading,
    Paused,
    Completed,
    Failed,
    Cancelled,
}

/// A download as stored on disk.
#[derive(Debug)]
pub struct DownloadEntry {
    pub id: String,
    pub game_title: String,
    pub file_name: String,
    pub url: String,
    /// The direct URL resolved from `url`, used to resume.
    pub resolved_url: Option<String>,
    /// Cookies needed to resume an authenticated download.
    pub cookies: Option<String>,
    pub source_id: String,
    pub host_label: String,
    pub host_color: String,
    pub status: DownloadStatus,
    pub downloaded_bytes: u64,
    pub total_bytes: u64,
    pub file_path: Option<String>,
    pub error: Option<String>,
    pub started_at: u64,
    pub completed_at: Option<u64>,
    pub is_resumable: bool,
}

impl Clone for DownloadEntry {
    /// An identical copy.
    fn clone(&self) -> (r: Self)
        ensures
            r == *self,
    {
        DownloadEntry {
            id: self.id.clone(),
            game_title: self.game_title.clone(),
            file_name: self.file_name.clone(),
            url: self.url.clone(),
            resolved_url: clone_opt(&self.resolved_url),
            cookies: clone_opt(&self.cookies),
            source_id: self.source_id.clone(),
            host_label: self.host_label.clone(),
            host_color: self.host_color.clone(),
            status: self.status,
            downloaded_bytes: self.downloaded_bytes,
            total_bytes: self.total_bytes,
            file_path: clone_opt(&self.file_path),
            error: clone_opt(&self.error),
            started_at: self.started_at,
            completed_at: self.completed_at,
            is_resumable: self.is_resumable,
        }
    }
}

/// The signal a running download reads between chunks.
#[derive(Debug, Clone, Copy, PartialEq, Eq, Structural)]
pub enum DownloadSignal {
    Continue,
    Pause,
    Cancel,
}

/// The downloads as stored on disk.
#[derive(Debug)]
pub struct DownloadsDb {
    pub downloads: Vec<DownloadEntry>,
    pub download_folder: Option<String>,
}

impl Default for DownloadsDb {
    /// No downloads, no folder.
    fn default() -> (r: Self)
        ensures
            r.downloads@.len() == 0,
            r.download_folder is None,
    {
        DownloadsDb { downloads: Vec::new(), download_folder: None }
    }
}

// ---------------------------------------------------------------------------
// State changes of one record
// ---------------------------------------------------------------------------

/// Completed, failed and cancelled downloads are finished.
pub open spec fn is_terminal(s: DownloadStatus) -> bool {
    s == DownloadStatus::Cancelled || s == DownloadStatus::Failed || s == DownloadStatus::Completed
}

/// Queued, pending, running and paused downloads are kept by `clear_finished`.
pub open spec fn is_active(s: DownloadStatus) -> bool {
    s == DownloadStatus::Queued || s == DownloadStatus::Downloading || s == DownloadStatus::Pending
        || s == DownloadStatus::Paused
}

/// A progress report: ignored by a finished download, else it records the
/// byte counts and marks the download running.
pub open spec fn progressed(e: DownloadEntry, downloaded: u64, total: u64) -> DownloadEntry {
    if is_terminal(e.status) {
        e
    } else {
        DownloadEntry { downloaded_bytes: downloaded, total_bytes: total, status: DownloadStatus::Downloading, ..e }
    }
}

/// A status change; a completed download records when it completed.
pub open spec fn with_status(e: DownloadEntry, s: DownloadStatus, now: u64) -> DownloadEntry {
    if s == DownloadStatus::Completed {
        DownloadEntry { status: s, completed_at: Some(now), ..e }
    } else {
        DownloadEntry { status: s, ..e }
    }
}

/// `n` is `e` after completion with file `path` of `size` bytes at `now`: a
/// cancelled download stays as it is; otherwise the file and its size are
/// recorded and the download is complete.
pub open spec fn completion_of(e: DownloadEntry, n: DownloadEntry, path: Seq<char>, size: u64, now: u64) -> bool {
    if e.status == DownloadStatus::Cancelled {
        n == e
    } else {
        &&& n == DownloadEntry {
            file_path: n.file_path,
            status: DownloadStatus::Completed,
            downloaded_bytes: size,
            total_bytes: size,
            completed_at: Some(now),
            ..e
        }
        &&& n.file_path matches Some(p) && p@ == path
    }
}

/// `n` is `e` failed with `error`.
pub open spec fn failure_of(e: DownloadEntry, n: DownloadEntry, error: Seq<char>) -> bool {
    &&& n == DownloadEntry { status: DownloadStatus::Failed, error: n.error, ..e }
    &&& n.error matches Some(m) && m@ == error
}

/// A pause request pauses a running download and leaves others as they are.
pub open spec fn paused(e: DownloadEntry) -> DownloadEntry {
    if e.status == DownloadStatus::Downloading { DownloadEntry { status: DownloadStatus::Paused, ..e } } else { e }
}

/// A resume request re-queues a paused or failed download and clears its error.
pub open spec fn resumed(e: DownloadEntry) -> DownloadEntry {
    if e.status == DownloadStatus::Paused || e.status == DownloadStatus::Failed {
        DownloadEntry { status: DownloadStatus::Pending, error: None, ..e }
    } else {
        e
    }
}

/// The state of a record after it was restored from disk: in-flight downloads
/// (running, queued, pending) come back paused.
pub open spec fn restored(e: DownloadEntry) -> DownloadEntry {
    if e.status == DownloadStatus::Downloading || e.status == DownloadStatus::Queued || e.status == DownloadStatus::Pending {
        DownloadEntry { status: DownloadStatus::Paused, ..e }
    } else {
        e
    }
}

// ---------------------------------------------------------------------------
// The records and signals
// ---------------------------------------------------------------------------

/// The error reported for an unknown download.
pub open spec fn download_not_found(id: Seq<char>) -> Seq<char> {
    "Download not found: "@ + id
}

/// The signal a download reads: `Continue` unless one was set.
pub open spec fn signal_of(signals: Seq<(Seq<char>, DownloadSignal)>, id: Seq<char>) -> DownloadSignal {
    match lookup(signals, id) {
        Some(s) => s,
        None => DownloadSignal::Continue,
    }
}

/// `now` is `old` with the entry under `id` changed to `e` (when there is one).
pub open spec fn changed_at(old: Seq<(Seq<char>, DownloadEntry)>, now: Seq<(Seq<char>, DownloadEntry)>, id: Seq<char>, f: spec_fn(DownloadEntry) -> DownloadEntry) -> bool {
    match index_of_key(old, id) {
        Some(i) => now == old.update(i, (id, f(old[i].1))),
        None => now == old,
    }
}

/// The records found for the identifiers, in order.
pub open spec fn found_entries(d: Seq<(Seq<char>, DownloadEntry)>, ids: Seq<Seq<char>>) -> Seq<DownloadEntry>
    decreases ids.len(),
{
    if ids.len() == 0 {
        Seq::empty()
    } else {
        let prev = found_entries(d, ids.drop_last());
        match lookup(d, ids.last()) {
            Some(e) => prev.push(e),
            None => prev,
        }
    }
}

/// All downloads, by identifier, and the signals of running downloads.
pub struct Downloads {
    pub downloads: Dict<DownloadEntry>,
    pub signals: Dict<DownloadSignal>,
}

impl Downloads {
    /// No downloads.
    pub fn new() -> (r: Self)
        ensures
            r.downloads.view().len() == 0,
            r.signals.view().len() == 0,
    {
        Downloads { downloads: Dict::new(), signals: Dict::new() }
    }

    /// Add a download and let it run.
    pub fn add_download(&mut self, entry: DownloadEntry)
        ensures
            final(self).downloads.view() == inserted(old(self).downloads.view(), entry.id@, entry),
            final(self).signals.view() == inserted(old(self).signals.view(), entry.id@, DownloadSignal::Continue),
    {
        let id = entry.id.clone();
        let id2 = entry.id.clone();
        self.downloads.insert(id, entry);
        self.signals.insert(id2, DownloadSignal::Continue);
    }

    /// Record progress; finished downloads ignore it.
    pub fn update_progress(&mut self, id: &str, downloaded_bytes: u64, total_bytes: u64)
        ensures
            changed_at(old(self).downloads.view(), final(self).downloads.view(), id@,
                |e: DownloadEntry| progressed(e, downloaded_bytes, total_bytes)),
            final(self).signals.view() == old(self).signals.view(),
    {
        if let Some(i) = self.downloads.position(id) {
            let mut e = self.downloads.value_at(i).clone();
            if !(e.status == DownloadStatus::Cancelled || e.status == DownloadStatus::Failed
                || e.status == DownloadStatus::Completed) {
                e.downloaded_bytes = downloaded_bytes;
                e.total_bytes = total_bytes;
                e.status = DownloadStatus::Downloading;
            }
            self.set_entry(i, e);
        }
    }

    /// Set a download's status (`now` is the completion time when it completes).
    pub fn update_status(&mut self, id: &str, status: DownloadStatus, now: u64)
        ensures
            changed_at(old(self).downloads.view(), final(self).downloads.view(), id@,
                |e: DownloadEntry| with_status(e, status, now)),
            final(self).signals.view() == old(self).signals.view(),
    {
        if let Some(i) = self.downloads.position(id) {
            let mut e = self.downloads.value_at(i).clone();
            e.status = status;
            if status == DownloadStatus::Completed {
                e.completed_at = Some(now);
            }
            self.set_entry(i, e);
        }
    }

    /// Mark a download complete; a cancelled download stays cancelled.
    /// Returns whether the record changed.
    pub fn complete_download(&mut self, id: &str, file_path: &str, file_size: u64, now: u64) -> (changed: bool)
        ensures
            match index_of_key(old(self).downloads.view(), id@) {
                Some(i) => {
                    &&& final(self).downloads.view().len() == old(self).downloads.view().len()
                    &&& final(self).downloads.view() == old(self).downloads.view().update(i, (id@, final(self).downloads.view()[i].1))
                    &&& completion_of(old(self).downloads.view()[i].1, final(self).downloads.view()[i].1, file_path@, file_size, now)
                    &&& changed == (old(self).downloads.view()[i].1.status != DownloadStatus::Cancelled)
                },
                None => !changed && final(self).downloads.view() == old(self).downloads.view(),
            },
            final(self).signals.view() == old(self).signals.view(),
    {
        if let Some(i) = self.downloads.position(id) {
            let mut e = self.downloads.value_at(i).clone();
            if e.status == DownloadStatus::Cancelled {
                self.set_entry(i, e);
                return false;
            }
            e.status = DownloadStatus::Completed;
            e.file_path = Some(String::from_str(file_path));
            e.downloaded_bytes = file_size;
            e.total_bytes = file_size;
            e.completed_at = Some(now);
            self.set_entry(i, e);
            true
        } else {
            false
        }
    }

    /// Mark a download failed with `error`.
    pub fn fail_download(&mut self, id: &str, error: &str)
        ensures
            match index_of_key(old(self).downloads.view(), id@) {
                Some(i) => {
                    &&& final(self).downloads.view().len() == old(self).downloads.view().len()
                    &&& final(self).downloads.view() == old(self).downloads.view().update(i, (id@, final(self).downloads.view()[i].1))
                    &&& failure_of(old(self).downloads.view()[i].1, final(self).downloads.view()[i].1, error@)
                },
                None => final(self).downloads.view() == old(self).downloads.view(),
            },
            final(self).signals.view() == old(self).signals.view(),
    {
        if let Some(i) = self.downloads.position(id) {
            let mut e = self.downloads.value_at(i).clone();
            e.status = DownloadStatus::Failed;
            e.error = Some(String::from_str(error));
            self.set_entry(i, e);
        }
    }

    /// Ask a download to pause: its signal becomes `Pause` and a running
    /// download is marked paused.
    pub fn pause_download(&mut self, id: &str)
        ensures
            changed_at(old(self).downloads.view(), final(self).downloads.view(), id@, |e: DownloadEntry| paused(e)),
            final(self).signals.view() == inserted(old(self).signals.view(), id@, DownloadSignal::Pause),
    {
        self.signals.insert(String::from_str(id), DownloadSignal::Pause);
        if let Some(i) = self.downloads.position(id) {
            let mut e = self.downloads.value_at(i).clone();
            if e.status == DownloadStatus::Downloading {
                e.status = DownloadStatus::Paused;
            }
            self.set_entry(i, e);
        }
    }

    /// Resume a download: a paused or failed download is re-queued with its
    /// error cleared, its signal becomes `Continue`, and its record is returned.
    /// Unknown downloads are refused.
    pub fn resume_download(&mut self, id: &str) -> (r: Result<DownloadEntry, String>)
        ensures
            match index_of_key(old(self).downloads.view(), id@) {
                Some(i) => {
                    &&& final(self).downloads.view() == old(self).downloads.view().update(i, (id@, resumed(old(self).downloads.view()[i].1)))
                    &&& r == Ok::<DownloadEntry, String>(resumed(old(self).downloads.view()[i].1))
                    &&& final(self).signals.view() == inserted(old(self).signals.view(), id@, DownloadSignal::Continue)
                },
                None => {
                    &&& r matches Err(m) && m@ == download_not_found(id@)
                    &&& final(self).downloads.view() == old(self).downloads.view()
                    &&& final(self).signals.view() == old(self).signals.view()
                },
            },
    {
        match self.downloads.position(id) {
            Some(i) => {
                let mut e = self.downloads.value_at(i).clone();
                if e.status == DownloadStatus::Paused || e.status == DownloadStatus::Failed {
                    e.status = DownloadStatus::Pending;
                    e.error = None;
                }
                let out = e.clone();
                self.set_entry(i, e);
                self.signals.insert(String::from_str(id), DownloadSignal::Continue);
                Ok(out)
            },
            None => Err(concat("Download not found: ", id)),
        }
    }

    /// Cancel a download: its signal becomes `Cancel`, its record is marked
    /// cancelled, and the path of its partial file (when one is recorded and
    /// not empty) is returned for deletion.
    pub fn cancel_download(&mut self, id: &str) -> (partial: Option<String>)
        ensures
            changed_at(old(self).downloads.view(), final(self).downloads.view(), id@,
                |e: DownloadEntry| DownloadEntry { status: DownloadStatus::Cancelled, ..e }),
            final(self).signals.view() == inserted(old(self).signals.view(), id@, DownloadSignal::Cancel),
            partial == (match lookup(old(self).downloads.view(), id@) {
                Some(e) => match e.file_path {
                    Some(p) => if p@.len() > 0 { Some(p) } else { None },
                    None => None,
                },
                None => None,
            }),
    {
        self.signals.insert(String::from_str(id), DownloadSignal::Cancel);
        match self.downloads.position(id) {
            Some(i) => {
                let mut e = self.downloads.value_at(i).clone();
                e.status = DownloadStatus::Cancelled;
                let path = clone_opt(&e.file_path);
                self.set_entry(i, e);
                match path {
                    Some(p) => if p.as_str().is_empty() { None } else { Some(p) },
                    None => None,
                }
            },
            None => None,
        }
    }

    /// Remove a download and its signal.
    pub fn remove_download(&mut self, id: &str)
        ensures
            match index_of_key(old(self).downloads.view(), id@) {
                Some(i) => final(self).downloads.view() == old(self).downloads.view().remove(i),
                None => final(self).downloads.view() == old(self).downloads.view(),
            },
            match index_of_key(old(self).signals.view(), id@) {
                Some(i) => final(self).signals.view() == old(self).signals.view().remove(i),
                None => final(self).signals.view() == old(self).signals.view(),
            },
    {
        let _ = self.downloads.remove(id);
        let _ = self.signals.remove(id);
    }

    /// The signal download `id` reads (`Continue` unless one was set).
    pub fn check_signal(&self, id: &str) -> (s: DownloadSignal)
        ensures
            s == signal_of(self.signals.view(), id@),
    {
        match self.signals.get(id) {
            Some(s) => *s,
            None => DownloadSignal::Continue,
        }
    }

    /// The record of download `id`.
    pub fn get_download(&self, id: &str) -> (r: Option<DownloadEntry>)
        ensures
            r == lookup(self.downloads.view(), id@),
    {
        match self.downloads.get(id) {
            Some(e) => Some(e.clone()),
            None => None,
        }
    }

    /// Record the direct URL a download was resolved to (used to resume).
    pub fn update_resolved_url(&mut self, id: &str, resolved_url: &str)
        ensures
            match index_of_key(old(self).downloads.view(), id@) {
                Some(i) => {
                    let n = final(self).downloads.view()[i].1;
                    &&& final(self).downloads.view() == old(self).downloads.view().update(i, (id@, DownloadEntry { resolved_url: n.resolved_url, ..old(self).downloads.view()[i].1 }))
                    &&& n.resolved_url matches Some(u) && u@ == resolved_url@
                },
                None => final(self).downloads.view() == old(self).downloads.view(),
            },
            final(self).signals.view() == old(self).signals.view(),
    {
        if let Some(i) = self.downloads.position(id) {
            let mut e = self.downloads.value_at(i).clone();
            e.resolved_url = Some(String::from_str(resolved_url));
            self.set_entry(i, e);
        }
    }

    /// Record the cookies a download needs to resume.
    pub fn update_cookies(&mut self, id: &str, cookies: &str)
        ensures
            match index_of_key(old(self).downloads.view(), id@) {
                Some(i) => {
                    let n = final(self).downloads.view()[i].1;
                    &&& final(self).downloads.view() == old(self).downloads.view().update(i, (id@, DownloadEntry { cookies: n.cookies, ..old(self).downloads.view()[i].1 }))
                    &&& n.cookies matches Some(c) && c@ == cookies@
                },
                None => final(self).downloads.view() == old(self).downloads.view(),
            },
            final(self).signals.view() == old(self).signals.view(),
    {
        if let Some(i) = self.downloads.position(id) {
            let mut e = self.downloads.value_at(i).clone();
            e.cookies = Some(String::from_str(cookies));
            self.set_entry(i, e);
        }
    }

    /// Record where a download is written.
    pub fn update_file_path(&mut self, id: &str, file_path: &str)
        ensures
            match index_of_key(old(self).downloads.view(), id@) {
                Some(i) => {
                    let n = final(self).downloads.view()[i].1;
                    &&& final(self).downloads.view() == old(self).downloads.view().update(i, (id@, DownloadEntry { file_path: n.file_path, ..old(self).downloads.view()[i].1 }))
                    &&& n.file_path matches Some(p) && p@ == file_path@
                },
                None => final(self).downloads.view() == old(self).downloads.view(),
            },
            final(self).signals.view() == old(self).signals.view(),
    {
        if let Some(i) = self.downloads.position(id) {
            let mut e = self.downloads.value_at(i).clone();
            e.file_path = Some(String::from_str(file_path));
            self.set_entry(i, e);
        }
    }

    /// Rename a download's file.
    pub fn update_filename(&mut self, id: &str, filename: &str)
        ensures
            match index_of_key(old(self).downloads.view(), id@) {
                Some(i) => {
                    let n = final(self).downloads.view()[i].1;
                    &&& final(self).downloads.view() == old(self).downloads.view().update(i, (id@, DownloadEntry { file_name: n.file_name, ..old(self).downloads.view()[i].1 }))
                    &&& n.file_name@ == filename@
                },
                None => final(self).downloads.view() == old(self).downloads.view(),
            },
            final(self).signals.view() == old(self).signals.view(),
    {
        if let Some(i) = self.downloads.position(id) {
            let mut e = self.downloads.value_at(i).clone();
            e.file_name = String::from_str(filename);
            self.set_entry(i, e);
        }
    }

    /// Mark a download as one that cannot resume.
    pub fn mark_non_resumable(&mut self, id: &str)
        ensures
            changed_at(old(self).downloads.view(), final(self).downloads.view(), id@,
                |e: DownloadEntry| DownloadEntry { is_resumable: false, ..e }),
            final(self).signals.view() == old(self).signals.view(),
    {
        if let Some(i) = self.downloads.position(id) {
            let mut e = self.downloads.value_at(i).clone();
            e.is_resumable = false;
            self.set_entry(i, e);
        }
    }

    /// Mark a download as one that can resume.
    pub fn mark_resumable(&mut self, id: &str)
        ensures
            changed_at(old(self).downloads.view(), final(self).downloads.view(), id@,
                |e: DownloadEntry| DownloadEntry { is_resumable: true, ..e }),
            final(self).signals.view() == old(self).signals.view(),
    {
        if let Some(i) = self.downloads.position(id) {
            let mut e = self.downloads.value_at(i).clone();
            e.is_resumable = true;
            self.set_entry(i, e);
        }
    }

    /// Record a download as paused with its progress.
    pub fn pause_download_with_progress(&mut self, id: &str, downloaded_bytes: u64, total_bytes: u64)
        ensures
            changed_at(old(self).downloads.view(), final(self).downloads.view(), id@,
                |e: DownloadEntry| DownloadEntry {
                    status: DownloadStatus::Paused,
                    downloaded_bytes: downloaded_bytes,
                    total_bytes: total_bytes,
                    ..e
                }),
            final(self).signals.view() == old(self).signals.view(),
    {
        if let Some(i) = self.downloads.position(id) {
            let mut e = self.downloads.value_at(i).clone();
            e.status = DownloadStatus::Paused;
            e.downloaded_bytes = downloaded_bytes;
            e.total_bytes = total_bytes;
            self.set_entry(i, e);
        }
    }

    /// Drop every finished (completed, failed, cancelled) download.
    pub fn clear_finished(&mut self)
        ensures
            final(self).downloads.view() == old(self).downloads.view().filter(
                |p: (Seq<char>, DownloadEntry)| is_active(p.1.status)),
            final(self).signals.view() == old(self).signals.view(),
    {
        self.downloads.assert_unique();
        let ghost old_v = self.downloads.view();
        let ghost f = |p: (Seq<char>, DownloadEntry)| is_active(p.1.status);
        let n = self.downloads.len();
        let mut kept: Dict<DownloadEntry> = Dict::new();
        let mut i: usize = 0;
        assert(old_v.take(0) =~= Seq::<(Seq<char>, DownloadEntry)>::empty());
        assert(old_v.take(0).filter(f) =~= Seq::<(Seq<char>, DownloadEntry)>::empty());
        while i < n
            invariant
                i <= n,
                n == old_v.len(),
                old_v == self.downloads.view(),
                crate::dict::keys_unique(old_v),
                f == (|p: (Seq<char>, DownloadEntry)| is_active(p.1.status)),
                kept.view() == old_v.take(i as int).filter(f),
            decreases n - i,
        {
            let ghost pre = old_v.take(i as int);
            proof {
                assert(old_v.take(i + 1) =~= pre.push(old_v[i as int]));
                pre.lemma_filter_push(old_v[i as int], f);
            }
            let e = self.downloads.value_at(i);
            if e.status == DownloadStatus::Queued || e.status == DownloadStatus::Downloading
                || e.status == DownloadStatus::Pending || e.status == DownloadStatus::Paused {
                let k = self.downloads.key_at(i).clone();
                proof {
                    assert forall|j: int| 0 <= j < kept.view().len() implies #[trigger] kept.view()[j].0 != k@ by {
                        let x = kept.view()[j];
                        pre.lemma_filter_contains_rev(f, x);
                        let m = choose|m: int| 0 <= m < pre.len() && pre[m] == x;
                        assert(old_v[m] == x);
                        assert(old_v[m].0 != old_v[i as int].0);
                    }
                    assert(!(exists|j: int| 0 <= j < kept.view().len() && #[trigger] kept.view()[j].0 == k@));
                }
                let c = e.clone();
                let ghost before = kept.view();
                kept.insert(k, c);
                proof {
                    assert(*e == old_v[i as int].1);
                    assert(is_active(old_v[i as int].1.status));
                    assert(f(old_v[i as int]));
                    assert(crate::dict::index_of_key(before, old_v[i as int].0) is None);
                    assert(kept.view() == before.push((old_v[i as int].0, old_v[i as int].1)));
                    assert((old_v[i as int].0, old_v[i as int].1) == old_v[i as int]);
                }
            } else {
                proof {
                    assert(*e == old_v[i as int].1);
                    assert(!is_active(old_v[i as int].1.status));
                    assert(!f(old_v[i as int]));
                }
            }
            i = i + 1;
        }
        assert(old_v.take(n as int) =~= old_v);
        self.downloads = kept;
    }

    /// Snapshots of the downloads with the given identifiers, in that order
    /// (unknown identifiers are skipped).
    pub fn get_entries_by_ids(&self, ids: &[String]) -> (r: Vec<DownloadEntry>)
        ensures
            r@ == found_entries(self.downloads.view(), views(ids@)),
    {
        let mut out: Vec<DownloadEntry> = Vec::new();
        let mut i: usize = 0;
        while i < ids.len()
            invariant
                i <= ids.len(),
                out@ == found_entries(self.downloads.view(), views(ids@).take(i as int)),
            decreases ids.len() - i,
        {
            proof {
                assert(views(ids@).take(i + 1).drop_last() =~= views(ids@).take(i as int));
            }
            match self.downloads.get(ids[i].as_str()) {
                Some(e) => { out.push(e.clone()); },
                None => {},
            }
            i = i + 1;
        }
        assert(views(ids@).take(i as int) =~= views(ids@));
        out
    }

    /// Snapshots of all downloads, in order.
    pub fn get_all_downloads(&self) -> (r: Vec<DownloadEntry>)
        ensures
            r@ == self.downloads.view().map_values(|p: (Seq<char>, DownloadEntry)| p.1),
    {
        let mut out: Vec<DownloadEntry> = Vec::new();
        let n = self.downloads.len();
        let mut i: usize = 0;
        while i < n
            invariant
                i <= n,
                n == self.downloads.view().len(),
                out@ == self.downloads.view().take(i as int).map_values(|p: (Seq<char>, DownloadEntry)| p.1),
            decreases n - i,
        {
            out.push(self.downloads.value_at(i).clone());
            i = i + 1;
            assert(out@ =~= self.downloads.view().take(i as int).map_values(|p: (Seq<char>, DownloadEntry)| p.1));
        }
        assert(self.downloads.view().take(n as int) =~= self.downloads.view());
        out
    }

    fn set_entry(&mut self, i: usize, e: DownloadEntry)
        requires
            i < old(self).downloads.view().len(),
        ensures
            final(self).downloads.view() == old(self).downloads.view().update(i as int, (old(self).downloads.view()[i as int].0, e)),
            final(self).signals.view() == old(self).signals.view(),
    {
        self.downloads.set_value_at(i, e);
    }
}

/// The records kept from the first `n` stored entries: completed downloads
/// whose file is gone are dropped, the others restored under their
/// identifiers (a later entry replacing an earlier one with the same id).
pub open spec fn restore_fold(entries: Seq<DownloadEntry>, present: Seq<bool>, n: nat) -> Seq<(Seq<char>, DownloadEntry)>
    decreases n,
{
    if n == 0 {
        Seq::empty()
    } else {
        let prev = restore_fold(entries, present, (n - 1) as nat);
        let e = entries[n - 1];
        if e.status == DownloadStatus::Completed && !present[n - 1] {
            prev
        } else {
            inserted(prev, e.id@, restored(e))
        }
    }
}

/// The downloads restored from disk; `file_present[i]` tells whether the file
/// of entry `i` still exists.
pub fn restore_downloads(entries: &[DownloadEntry], file_present: &[bool]) -> (r: Downloads)
    requires
        file_present@.len() == entries@.len(),
    ensures
        r.downloads.view() == restore_fold(entries@, file_present@, entries@.len()),
        r.signals.view().len() == 0,
{
    let mut d = Downloads::new();
    let mut i: usize = 0;
    while i < entries.len()
        invariant
            i <= entries.len(),
            file_present@.len() == entries@.len(),
            d.downloads.view() == restore_fold(entries@, file_present@, i as nat),
            d.signals.view().len() == 0,
        decreases entries.len() - i,
    {
        let mut e = entries[i].clone();
        if e.status == DownloadStatus::Completed && !file_present[i] {
        } else {
            if e.status == DownloadStatus::Downloading || e.status == DownloadStatus::Queued
                || e.status == DownloadStatus::Pending {
                e.status = DownloadStatus::Paused;
            }
            let id = e.id.clone();
            d.downloads.insert(id, e);
        }
        i = i + 1;
    }
    d
}

/// `dl_`, the time in milliseconds, `_`, and a random number.
pub open spec fn download_id_text(millis: nat, random: nat) -> Seq<char> {
    "dl_"@ + dec_of(millis) + "_"@ + dec_of(random)
}

/// Format a download identifier from a time and a random number.
pub fn format_download_id(millis: u128, random: u32) -> (r: String)
    ensures
        r@ == download_id_text(millis as nat, random as nat),
{
    let a = to_decimal(millis);
    let b = to_decimal(random as u128);
    let head = concat("dl_", a.as_str());
    concat3(head.as_str(), "_", b.as_str())
}

/// Wraps `SystemTime::now` since the Unix epoch: the current time in
/// milliseconds. Nothing is promised of the value.
#[verifier::external_body]
pub fn now_millis() -> (r: u128) {
    std::time::SystemTime::now().duration_since(std::time::UNIX_EPOCH).map(|d| d.as_millis()).unwrap_or(0)
}

/// Wraps `fastrand::u32(..)`: a random number. Nothing is promised of it.
#[verifier::external_body]
pub fn random_u32() -> (r: u32) {
    fastrand::u32(..)
}

/// A fresh download identifier: `dl_<milliseconds>_<random>`.
pub fn generate_download_id() -> (r: String)
    ensures
        exists|m: nat, x: nat| x < 0x1_0000_0000 && r@ == #[trigger] download_id_text(m, x),
{
    let m = now_millis();
    let x = random_u32();
    format_download_id(m, x)
}

// ---------------------------------------------------------------------------
// Laws
// ---------------------------------------------------------------------------

/// A progress report never brings a finished download back to life.
pub proof fn law_progress_keeps_finished(e: DownloadEntry, downloaded: u64, total: u64)
    requires
        is_terminal(e.status),
    ensures
        progressed(e, downloaded, total) == e,
{
}

/// A download cancelled before its file arrives stays cancelled.
pub proof fn law_cancel_beats_completion(e: DownloadEntry, n: DownloadEntry, path: Seq<char>, size: u64, now: u64)
    requires
        e.status == DownloadStatus::Cancelled,
        completion_of(e, n, path, size, now),
    ensures
        n.status == DownloadStatus::Cancelled,
        n == e,
{
}

/// Pausing a running download and resuming it re-queues it with no error.
pub proof fn law_pause_then_resume(e: DownloadEntry)
    requires
        e.status == DownloadStatus::Downloading,
    ensures
        resumed(paused(e)).status == DownloadStatus::Pending,
        resumed(paused(e)).error is None,
        resumed(paused(e)).downloaded_bytes == e.downloaded_bytes,
{
}

/// After a pause, cancel or resume request, the download reads that signal.
pub proof fn law_signal_reads_last_request(signals: Seq<(Seq<char>, DownloadSignal)>, id: Seq<char>, s: DownloadSignal)
    requires
        crate::dict::keys_unique(signals),
    ensures
        signal_of(inserted(signals, id, s), id) == s,
{
    crate::dict::law_lookup_inserted(signals, id, s, id);
}

/// Restored downloads are never in flight, and completed ones kept have
/// their files.
pub proof fn law_restore_leaves_nothing_in_flight(entries: Seq<DownloadEntry>, present: Seq<bool>, n: nat)
    requires
        n <= entries.len(),
        present.len() == entries.len(),
    ensures
        crate::dict::keys_unique(restore_fold(entries, present, n)),
        forall|j: int| 0 <= j < restore_fold(entries, present, n).len() ==> {
            let s = #[trigger] restore_fold(entries, present, n)[j].1.status;
            s != DownloadStatus::Downloading && s != DownloadStatus::Queued && s != DownloadStatus::Pending
        },
    decreases n,
{
    if n > 0 {
        law_restore_leaves_nothing_in_flight(entries, present, (n - 1) as nat);
        let prev = restore_fold(entries, present, (n - 1) as nat);
        let e = entries[n - 1];
        if !(e.status == DownloadStatus::Completed && !present[n - 1]) {
            crate::dict::law_lookup_inserted(prev, e.id@, restored(e), e.id@);
            let now = inserted(prev, e.id@, restored(e));
            assert forall|j: int| 0 <= j < now.len() implies {
                let s = #[trigger] now[j].1.status;
                s != DownloadStatus::Downloading && s != DownloadStatus::Queued && s != DownloadStatus::Pending
            } by {
                match crate::dict::index_of_key(prev, e.id@) {
                    Some(i) => { if j != i { assert(now[j] == prev[j]); } },
                    None => { if j < prev.len() { assert(now[j] == prev[j]); } },
                }
            }
        }
    }
}

/// Resuming re-queues a paused or failed download: its status becomes
/// pending and its error is cleared, everything else kept; a download in any
/// other state is left as it was.
pub proof fn law_resume_requeues(e: DownloadEntry)
    ensures
        (e.status == DownloadStatus::Paused || e.status == DownloadStatus::Failed) ==> {
            &&& resumed(e).status == DownloadStatus::Pending
            &&& resumed(e).error is None
            &&& resumed(e) == (DownloadEntry { status: DownloadStatus::Pending, error: None, ..e })
        },
        !(e.status == DownloadStatus::Paused || e.status == DownloadStatus::Failed) ==> resumed(e) == e,
{
}

} // verus!
