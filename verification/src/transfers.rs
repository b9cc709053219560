//! The Transfers footer of the Files browser: download and upload rows kept
//! per SSH pane (newest first), their progress state machine, and the
//! removals that cancel running jobs.
//!
//! The table is one list of `(pane id, row)` pairs; the rows of a pane are
//! the rows tagged with it, in list order. Times are millisecond readings of
//! a monotonic clock handed in by the caller.

use vstd::prelude::*;

use crate::file_icon;
use crate::text;

verus! {

#[derive(Clone, Copy, Debug, PartialEq, Eq, Structural)]
pub enum TransferDir {
    Download,
    Upload,
}

#[derive(Debug)]
pub enum TransferStatus {
    /// On the transfer lane; the worker has not started it yet.
    Queued,
    Running { done: u64, total: Option<u64>, files_done: Option<u32>, files_total: Option<u32> },
    /// `files` is the file count of a folder transfer.
    Done { files: Option<u32> },
    Failed(String),
}

impl Clone for TransferStatus {
    fn clone(&self) -> (c: Self)
        ensures
            c == *self,
    {
        match self {
            TransferStatus::Queued => TransferStatus::Queued,
            TransferStatus::Running { done, total, files_done, files_total } => {
                TransferStatus::Running {
                    done: *done,
                    total: *total,
                    files_done: *files_done,
                    files_total: *files_total,
                }
            },
            TransferStatus::Done { files } => TransferStatus::Done { files: *files },
            TransferStatus::Failed(msg) => TransferStatus::Failed(msg.clone()),
        }
    }
}

#[derive(Debug)]
pub struct TransferRow {
    pub id: u128,
    pub label: String,
    pub direction: TransferDir,
    pub status: TransferStatus,
    /// Local path for Reveal (download destination or upload source).
    pub local_path: Option<String>,
    pub is_dir: bool,
    /// Open the download with the default application once it is done.
    pub open_after: bool,
    /// Clock reading when the worker started the job (first progress).
    pub started_ms: Option<u64>,
    /// Set when the job finishes or fails.
    pub elapsed_ms: Option<u64>,
    pub bytes_done: u64,
    pub bytes_total: Option<u64>,
}

impl Clone for TransferRow {
    fn clone(&self) -> (c: Self)
        ensures
            c == *self,
    {
        TransferRow {
            id: self.id,
            label: self.label.clone(),
            direction: self.direction,
            status: self.status.clone(),
            local_path: match &self.local_path {
                Some(p) => Some(p.clone()),
                None => None,
            },
            is_dir: self.is_dir,
            open_after: self.open_after,
            started_ms: self.started_ms,
            elapsed_ms: self.elapsed_ms,
            bytes_done: self.bytes_done,
            bytes_total: self.bytes_total,
        }
    }
}

/// A progress report of the transfer worker.
#[derive(Clone, Copy, Debug, PartialEq, Eq, Structural)]
pub struct TransferProgress {
    pub id: u128,
    /// Bytes of the current file.
    pub done: u64,
    pub total: Option<u64>,
    pub files_done: Option<u32>,
    pub files_total: Option<u32>,
    /// Bytes of the whole job (folder transfers).
    pub overall_done: Option<u64>,
    pub overall_total: Option<u64>,
}

/// `a.or(b)`.
pub open spec fn or_else<T>(a: Option<T>, b: Option<T>) -> Option<T> {
    match a {
        Some(x) => Some(x),
        None => b,
    }
}

/// Clock difference, zero when `now` is before `start`.
pub open spec fn since(start: u64, now: u64) -> u64 {
    if now >= start {
        (now - start) as u64
    } else {
        0
    }
}

/// A row after a progress report at clock `now`: it runs, its file counts
/// keep their last known values, and the byte counters follow the report.
pub open spec fn progressed(row: TransferRow, p: TransferProgress, now: u64) -> TransferRow {
    let (prev_files, prev_total) = match row.status {
        TransferStatus::Running { files_done, files_total, .. } => (files_done, files_total),
        TransferStatus::Done { files } => (files, files),
        _ => (None, None),
    };
    TransferRow {
        started_ms: match row.started_ms {
            Some(t) => Some(t),
            None => Some(now),
        },
        status: TransferStatus::Running {
            done: p.done,
            total: or_else(p.total, row.bytes_total),
            files_done: or_else(p.files_done, prev_files),
            files_total: or_else(p.files_total, prev_total),
        },
        bytes_done: match p.overall_done {
            Some(b) => b,
            None => if !row.is_dir {
                p.done
            } else {
                row.bytes_done
            },
        },
        bytes_total: match p.overall_total {
            Some(t) => Some(t),
            None => match p.total {
                Some(t) => Some(t),
                None => row.bytes_total,
            },
        },
        ..row
    }
}

/// A row after the worker reported success at clock `now`.
pub open spec fn finished(row: TransferRow, files: Option<u32>, bytes: Option<u64>, now: u64) -> TransferRow {
    let files = match files {
        Some(n) => Some(n),
        None => match row.status {
            TransferStatus::Running { files_done, .. } => if row.is_dir {
                files_done
            } else {
                None
            },
            _ => None,
        },
    };
    TransferRow {
        bytes_done: match bytes {
            Some(b) => b,
            None => row.bytes_done,
        },
        bytes_total: match bytes {
            Some(b) => match row.bytes_total {
                Some(t) => Some(t),
                None => Some(b),
            },
            None => row.bytes_total,
        },
        elapsed_ms: Some(
            match row.started_ms {
                Some(t) => since(t, now),
                None => 0,
            },
        ),
        status: TransferStatus::Done { files },
        ..row
    }
}

/// A row after the job failed with `msg` at clock `now`.
pub open spec fn failed(row: TransferRow, msg: String, now: u64) -> TransferRow {
    TransferRow {
        elapsed_ms: match row.started_ms {
            Some(t) => Some(since(t, now)),
            None => None,
        },
        status: TransferStatus::Failed(msg),
        ..row
    }
}

/// The rows of `pane`, in table order.
pub open spec fn pane_rows(rows: Seq<(u128, TransferRow)>, pane: u128) -> Seq<TransferRow>
    decreases rows.len(),
{
    if rows.len() == 0 {
        Seq::empty()
    } else {
        let rest = pane_rows(rows.drop_last(), pane);
        if rows.last().0 == pane {
            rest.push(rows.last().1)
        } else {
            rest
        }
    }
}

/// No two rows share an id.
pub open spec fn ids_distinct(rows: Seq<(u128, TransferRow)>) -> bool {
    forall|i: int, j: int|
        0 <= i < j < rows.len() ==> (#[trigger] rows[i]).1.id != (#[trigger] rows[j]).1.id
}

pub open spec fn has_id(rows: Seq<(u128, TransferRow)>, id: u128) -> bool {
    exists|i: int| 0 <= i < rows.len() && (#[trigger] rows[i]).1.id == id
}

/// Rows with the one whose id is `id` replaced by `f` of it.
pub open spec fn map_row(
    rows: Seq<(u128, TransferRow)>,
    id: u128,
    f: spec_fn(TransferRow) -> TransferRow,
) -> Seq<(u128, TransferRow)> {
    rows.map_values(
        |pr: (u128, TransferRow)|
            if pr.1.id == id {
                (pr.0, f(pr.1))
            } else {
                pr
            },
    )
}

/// Rows that satisfy `keep`, in order.
pub open spec fn retain_rows(
    rows: Seq<(u128, TransferRow)>,
    keep: spec_fn((u128, TransferRow)) -> bool,
) -> Seq<(u128, TransferRow)>
    decreases rows.len(),
{
    if rows.len() == 0 {
        Seq::empty()
    } else {
        let rest = retain_rows(rows.drop_last(), keep);
        if keep(rows.last()) {
            rest.push(rows.last())
        } else {
            rest
        }
    }
}

/// Ids of the rows that fail `keep`, in order.
pub open spec fn dropped_ids(
    rows: Seq<(u128, TransferRow)>,
    keep: spec_fn((u128, TransferRow)) -> bool,
) -> Seq<u128>
    decreases rows.len(),
{
    if rows.len() == 0 {
        Seq::empty()
    } else {
        let rest = dropped_ids(rows.drop_last(), keep);
        if keep(rows.last()) {
            rest
        } else {
            rest.push(rows.last().1.id)
        }
    }
}

/// A queued download of a remote entry; folders have no known total yet.
pub fn queued_download(id: u128, name: String, is_dir: bool, open_after: bool, size: u64) -> (row:
    TransferRow)
    ensures
        row == (TransferRow {
            id,
            label: name,
            direction: TransferDir::Download,
            status: TransferStatus::Queued,
            local_path: None,
            is_dir,
            open_after,
            started_ms: None,
            elapsed_ms: None,
            bytes_done: 0,
            bytes_total: if is_dir {
                None
            } else {
                Some(size)
            },
        }),
{
    TransferRow {
        id,
        label: name,
        direction: TransferDir::Download,
        status: TransferStatus::Queued,
        local_path: None,
        is_dir,
        open_after,
        started_ms: None,
        elapsed_ms: None,
        bytes_done: 0,
        bytes_total: if is_dir {
            None
        } else {
            Some(size)
        },
    }
}

/// A queued upload of the local path `local`.
pub fn queued_upload(id: u128, label: String, local: String, is_dir: bool) -> (row: TransferRow)
    ensures
        row == (TransferRow {
            id,
            label,
            direction: TransferDir::Upload,
            status: TransferStatus::Queued,
            local_path: Some(local),
            is_dir,
            open_after: false,
            started_ms: None,
            elapsed_ms: None,
            bytes_done: 0,
            bytes_total: None,
        }),
{
    TransferRow {
        id,
        label,
        direction: TransferDir::Upload,
        status: TransferStatus::Queued,
        local_path: Some(local),
        is_dir,
        open_after: false,
        started_ms: None,
        elapsed_ms: None,
        bytes_done: 0,
        bytes_total: None,
    }
}

/// Transfer rows of all panes.
pub struct Transfers {
    rows: Vec<(u128, TransferRow)>,
}

impl View for Transfers {
    type V = Seq<(u128, TransferRow)>;

    closed spec fn view(&self) -> Seq<(u128, TransferRow)> {
        self.rows@
    }
}

impl Transfers {
    pub open spec fn wf(&self) -> bool {
        ids_distinct(self@)
    }

    pub fn new() -> (t: Self)
        ensures
            t.wf(),
            t@ == Seq::<(u128, TransferRow)>::empty(),
    {
        Transfers { rows: Vec::new() }
    }

    /// Position of the row with id `id`.
    fn position(&self, id: u128) -> (pos: Option<usize>)
        requires
            self.wf(),
        ensures
            match pos {
                Some(i) => i < self@.len() && self@[i as int].1.id == id,
                None => !has_id(self@, id),
            },
    {
        let mut i: usize = 0;
        while i < self.rows.len()
            invariant
                0 <= i <= self@.len(),
                self@ == self.rows@,
                forall|k: int| 0 <= k < i ==> (#[trigger] self@[k]).1.id != id,
            decreases self@.len() - i,
        {
            if self.rows[i].1.id == id {
                return Some(i);
            }
            i += 1;
        }
        None
    }

    /// Whether a row has id `id`.
    pub fn has_transfer(&self, id: u128) -> (found: bool)
        requires
            self.wf(),
        ensures
            found == has_id(self@, id),
    {
        self.position(id).is_some()
    }

    /// Adds `row` at the front of `pane`'s rows (newest first); refused
    /// when a row already has its id.
    pub fn insert(&mut self, pane: u128, row: TransferRow) -> (added: bool)
        requires
            old(self).wf(),
        ensures
            final(self).wf(),
            added == !has_id(old(self)@, row.id),
            added ==> final(self)@ == seq![(pane, row)] + old(self)@,
            !added ==> final(self)@ == old(self)@,
    {
        if self.position(row.id).is_some() {
            return false;
        }
        let ghost id = row.id;
        self.rows.insert(0, (pane, row));
        proof {
            assert(self@ =~= seq![(pane, self@[0].1)] + old(self)@);
            assert forall|i: int, j: int| 0 <= i < j < self@.len() implies (#[trigger] self@[i]).1.id
                != (#[trigger] self@[j]).1.id by {
                if i == 0 {
                    assert(self@[j] == old(self)@[j - 1]);
                } else {
                    assert(self@[i] == old(self)@[i - 1]);
                    assert(self@[j] == old(self)@[j - 1]);
                }
            }
        }
        true
    }

    /// The rows of `pane`, newest first.
    pub fn pane_transfers(&self, pane: u128) -> (rows: Vec<TransferRow>)
        ensures
            rows@ == pane_rows(self@, pane),
    {
        let mut out: Vec<TransferRow> = Vec::new();
        let mut i: usize = 0;
        while i < self.rows.len()
            invariant
                0 <= i <= self@.len(),
                self@ == self.rows@,
                out@ == pane_rows(self@.subrange(0, i as int), pane),
            decreases self@.len() - i,
        {
            assert(self@.subrange(0, i + 1).drop_last() =~= self@.subrange(0, i as int));
            if self.rows[i].0 == pane {
                out.push(self.rows[i].1.clone());
            }
            i += 1;
        }
        assert(self@.subrange(0, self@.len() as int) =~= self@);
        out
    }

    /// The rows of the pane the browser is bound to, or none.
    pub fn current_transfers(&self, bound: Option<u128>) -> (rows: Vec<TransferRow>)
        ensures
            rows@ == match bound {
                Some(p) => pane_rows(self@, p),
                None => Seq::empty(),
            },
    {
        match bound {
            Some(p) => self.pane_transfers(p),
            None => Vec::new(),
        }
    }

    /// The row with id `id`.
    pub fn find_transfer(&self, id: u128) -> (row: Option<TransferRow>)
        requires
            self.wf(),
        ensures
            match row {
                Some(r) => r.id == id && exists|i: int|
                    0 <= i < self@.len() && (#[trigger] self@[i]).1 == r,
                None => !has_id(self@, id),
            },
    {
        match self.position(id) {
            Some(i) => Some(self.rows[i].1.clone()),
            None => None,
        }
    }

    /// Replaces the row at `i` by `row`, keeping its pane.
    fn replace_row(&mut self, i: usize, row: TransferRow)
        requires
            old(self).wf(),
            i < old(self)@.len(),
            row.id == old(self)@[i as int].1.id,
        ensures
            final(self).wf(),
            final(self)@ == old(self)@.update(i as int, (old(self)@[i as int].0, row)),
    {
        let pane = self.rows[i].0;
        self.rows.set(i, (pane, row));
        proof {
            assert forall|a: int, b: int| 0 <= a < b < self@.len() implies (#[trigger] self@[a]).1.id
                != (#[trigger] self@[b]).1.id by {
                assert(old(self)@[a].1.id != old(self)@[b].1.id);
            }
        }
    }

    /// Applies a progress report received at clock `now` to its row.
    pub fn update_transfer_progress(&mut self, p: TransferProgress, now: u64)
        requires
            old(self).wf(),
        ensures
            final(self).wf(),
            final(self)@ == map_row(old(self)@, p.id, |r: TransferRow| progressed(r, p, now)),
    {
        match self.position(p.id) {
            None => {
                assert(self@ =~= map_row(old(self)@, p.id, |r: TransferRow| progressed(r, p, now)));
            },
            Some(i) => {
                let row = self.rows[i].1.clone();
                let (prev_files, prev_total) = match &row.status {
                    TransferStatus::Running { files_done, files_total, .. } => (
                        *files_done,
                        *files_total,
                    ),
                    TransferStatus::Done { files } => (*files, *files),
                    _ => (None, None),
                };
                let started = match row.started_ms {
                    Some(t) => Some(t),
                    None => Some(now),
                };
                let status = TransferStatus::Running {
                    done: p.done,
                    total: match p.total {
                        Some(t) => Some(t),
                        None => row.bytes_total,
                    },
                    files_done: match p.files_done {
                        Some(n) => Some(n),
                        None => prev_files,
                    },
                    files_total: match p.files_total {
                        Some(n) => Some(n),
                        None => prev_total,
                    },
                };
                let bytes_done = match p.overall_done {
                    Some(b) => b,
                    None => if !row.is_dir {
                        p.done
                    } else {
                        row.bytes_done
                    },
                };
                let bytes_total = match p.overall_total {
                    Some(t) => Some(t),
                    None => match p.total {
                        Some(t) => Some(t),
                        None => row.bytes_total,
                    },
                };
                let new_row = TransferRow {
                    started_ms: started,
                    status,
                    bytes_done,
                    bytes_total,
                    ..row
                };
                assert(new_row == progressed(old(self)@[i as int].1, p, now));
                self.replace_row(i, new_row);
                proof {
                    assert forall|k: int| 0 <= k < self@.len() implies #[trigger] self@[k] == map_row(
                        old(self)@,
                        p.id,
                        |r: TransferRow| progressed(r, p, now),
                    )[k] by {
                        if k != i {
                            assert(old(self)@[k].1.id != p.id);
                        }
                    }
                    assert(self@ =~= map_row(
                        old(self)@,
                        p.id,
                        |r: TransferRow| progressed(r, p, now),
                    ));
                }
            },
        }
    }

    /// Marks a job done at clock `now`; returns the local path to open when
    /// the row asked to be opened once downloaded.
    pub fn finish_transfer(&mut self, id: u128, files: Option<u32>, bytes: Option<u64>, now: u64) -> (open: Option<String>)
        requires
            old(self).wf(),
        ensures
            final(self).wf(),
            final(self)@ == map_row(old(self)@, id, |r: TransferRow| finished(r, files, bytes, now)),
            forall|i: int|
                0 <= i < old(self)@.len() && (#[trigger] old(self)@[i]).1.id == id ==> open == (
                if old(self)@[i].1.open_after {
                    old(self)@[i].1.local_path
                } else {
                    None
                }),
            !has_id(old(self)@, id) ==> open is None,
    {
        match self.position(id) {
            None => {
                assert(self@ =~= map_row(old(self)@, id, |r: TransferRow| finished(r, files, bytes, now)));
                None
            },
            Some(i) => {
                let row = self.rows[i].1.clone();
                let files = match files {
                    Some(n) => Some(n),
                    None => match &row.status {
                        TransferStatus::Running { files_done, .. } => if row.is_dir {
                            *files_done
                        } else {
                            None
                        },
                        _ => None,
                    },
                };
                let (bytes_done, bytes_total) = match bytes {
                    Some(b) => (
                        b,
                        match row.bytes_total {
                            Some(t) => Some(t),
                            None => Some(b),
                        },
                    ),
                    None => (row.bytes_done, row.bytes_total),
                };
                let elapsed = match row.started_ms {
                    Some(t) => if now >= t {
                        now - t
                    } else {
                        0
                    },
                    None => 0,
                };
                let open = if row.open_after {
                    match &row.local_path {
                        Some(p) => Some(p.clone()),
                        None => None,
                    }
                } else {
                    None
                };
                let new_row = TransferRow {
                    bytes_done,
                    bytes_total,
                    elapsed_ms: Some(elapsed),
                    status: TransferStatus::Done { files },
                    ..row
                };
                assert(new_row == finished(old(self)@[i as int].1, files, bytes, now));
                self.replace_row(i, new_row);
                proof {
                    assert forall|k: int| 0 <= k < self@.len() implies #[trigger] self@[k] == map_row(
                        old(self)@,
                        id,
                        |r: TransferRow| finished(r, files, bytes, now),
                    )[k] by {
                        if k != i {
                            assert(old(self)@[k].1.id != id);
                        }
                    }
                    assert(self@ =~= map_row(
                        old(self)@,
                        id,
                        |r: TransferRow| finished(r, files, bytes, now),
                    ));
                }
                open
            },
        }
    }

    /// Marks a job failed with `msg` at clock `now`.
    pub fn fail_transfer(&mut self, id: u128, msg: String, now: u64)
        requires
            old(self).wf(),
        ensures
            final(self).wf(),
            final(self)@ == map_row(old(self)@, id, |r: TransferRow| failed(r, msg, now)),
    {
        match self.position(id) {
            None => {
                assert(self@ =~= map_row(old(self)@, id, |r: TransferRow| failed(r, msg, now)));
            },
            Some(i) => {
                let row = self.rows[i].1.clone();
                let elapsed = match row.started_ms {
                    Some(t) => Some(
                        if now >= t {
                            now - t
                        } else {
                            0
                        },
                    ),
                    None => None,
                };
                let ghost m = msg;
                let new_row = TransferRow { elapsed_ms: elapsed, status: TransferStatus::Failed(msg), ..row };
                assert(new_row == failed(old(self)@[i as int].1, m, now));
                self.replace_row(i, new_row);
                proof {
                    assert forall|k: int| 0 <= k < self@.len() implies #[trigger] self@[k] == map_row(
                        old(self)@,
                        id,
                        |r: TransferRow| failed(r, m, now),
                    )[k] by {
                        if k != i {
                            assert(old(self)@[k].1.id != id);
                        }
                    }
                    assert(self@ =~= map_row(old(self)@, id, |r: TransferRow| failed(r, m, now)));
                }
            },
        }
    }

    /// A download got its local destination: it waits on the lane again.
    pub fn set_download_destination(&mut self, id: u128, local: String)
        requires
            old(self).wf(),
        ensures
            final(self).wf(),
            final(self)@ == map_row(
                old(self)@,
                id,
                |r: TransferRow|
                    TransferRow { local_path: Some(local), status: TransferStatus::Queued, ..r },
            ),
    {
        match self.position(id) {
            None => {
                assert(self@ =~= map_row(
                    old(self)@,
                    id,
                    |r: TransferRow|
                        TransferRow { local_path: Some(local), status: TransferStatus::Queued, ..r },
                ));
            },
            Some(i) => {
                let row = self.rows[i].1.clone();
                let ghost l = local;
                let new_row = TransferRow {
                    local_path: Some(local),
                    status: TransferStatus::Queued,
                    ..row
                };
                self.replace_row(i, new_row);
                proof {
                    let f = |r: TransferRow|
                        TransferRow { local_path: Some(l), status: TransferStatus::Queued, ..r };
                    assert forall|k: int| 0 <= k < self@.len() implies #[trigger] self@[k] == map_row(
                        old(self)@,
                        id,
                        f,
                    )[k] by {
                        if k != i {
                            assert(old(self)@[k].1.id != id);
                        }
                    }
                    assert(self@ =~= map_row(old(self)@, id, f));
                }
            },
        }
    }

    /// Keeps the rows that satisfy `keep`; returns the ids of the others,
    /// whose jobs the caller cancels.
    fn retain(&mut self, pane: Option<u128>, live: &[u128], by_id: Option<u128>) -> (dropped: Vec<u128>)
        requires
            old(self).wf(),
        ensures
            final(self).wf(),
            final(self)@ == retain_rows(old(self)@, |pr: (u128, TransferRow)| keep_rule(pr, pane, live@, by_id)),
            dropped@ == dropped_ids(old(self)@, |pr: (u128, TransferRow)| keep_rule(pr, pane, live@, by_id)),
    {
        let ghost keep = |pr: (u128, TransferRow)| keep_rule(pr, pane, live@, by_id);
        let ghost old_rows = self@;
        let mut kept: Vec<(u128, TransferRow)> = Vec::new();
        let mut dropped: Vec<u128> = Vec::new();
        let mut i: usize = 0;
        while i < self.rows.len()
            invariant
                0 <= i <= old_rows.len(),
                self@ == old_rows,
                self@ == self.rows@,
                ids_distinct(old_rows),
                keep == (|pr: (u128, TransferRow)| keep_rule(pr, pane, live@, by_id)),
                kept@ == retain_rows(old_rows.subrange(0, i as int), keep),
                dropped@ == dropped_ids(old_rows.subrange(0, i as int), keep),
                forall|a: int| 0 <= a < kept@.len() ==> exists|b: int| 0 <= b < i && #[trigger] kept@[a] == old_rows[b],
                forall|a: int, b: int| 0 <= a < b < kept@.len() ==> exists|c: int, d: int| 0 <= c < d < i && #[trigger] kept@[a] == old_rows[c] && #[trigger] kept@[b] == old_rows[d],
            decreases old_rows.len() - i,
        {
            assert(old_rows.subrange(0, i + 1).drop_last() =~= old_rows.subrange(0, i as int));
            let pr_pane = self.rows[i].0;
            let pr_id = self.rows[i].1.id;
            let k = keep_exec(pr_pane, pr_id, pane, live, by_id);
            assert(k == keep(old_rows[i as int]));
            if k {
                let ghost before = kept@;
                kept.push((pr_pane, self.rows[i].1.clone()));
                proof {
                    assert forall|a: int, b: int| 0 <= a < b < kept@.len() implies exists|c: int, d: int|
                        0 <= c < d < i + 1 && #[trigger] kept@[a] == old_rows[c] && #[trigger] kept@[b]
                            == old_rows[d] by {
                        if b < before.len() {
                            let (c, d) = choose|c: int, d: int|
                                0 <= c < d < i && #[trigger] before[a] == old_rows[c] && #[trigger] before[b]
                                    == old_rows[d];
                            assert(kept@[a] == old_rows[c] && kept@[b] == old_rows[d]);
                        } else {
                            let c = choose|c: int| 0 <= c < i && #[trigger] before[a] == old_rows[c];
                            assert(kept@[a] == old_rows[c] && kept@[b] == old_rows[i as int]);
                        }
                    }
                    assert forall|a: int| 0 <= a < kept@.len() implies exists|b: int|
                        0 <= b < i + 1 && #[trigger] kept@[a] == old_rows[b] by {
                        if a < before.len() {
                            let b = choose|b: int| 0 <= b < i && #[trigger] before[a] == old_rows[b];
                            assert(kept@[a] == old_rows[b]);
                        } else {
                            assert(kept@[a] == old_rows[i as int]);
                        }
                    }
                }
            } else {
                dropped.push(pr_id);
            }
            i += 1;
        }
        assert(old_rows.subrange(0, old_rows.len() as int) =~= old_rows);
        proof {
            assert forall|a: int, b: int| 0 <= a < b < kept@.len() implies (#[trigger] kept@[a]).1.id
                != (#[trigger] kept@[b]).1.id by {
                let (c, d) = choose|c: int, d: int|
                    0 <= c < d < old_rows.len() && #[trigger] kept@[a] == old_rows[c] && #[trigger] kept@[b]
                        == old_rows[d];
                assert(old_rows[c].1.id != old_rows[d].1.id);
            }
        }
        self.rows = kept;
        dropped
    }

    /// Removes the row with id `id` (Remove in the row menu); the caller
    /// cancels its job.
    pub fn remove_transfer(&mut self, id: u128)
        requires
            old(self).wf(),
        ensures
            final(self).wf(),
            final(self)@ == retain_rows(old(self)@, |pr: (u128, TransferRow)| pr.1.id != id),
            !has_id(final(self)@, id),
    {
        let none: Vec<u128> = Vec::new();
        let _ = self.retain(None, none.as_slice(), Some(id));
        proof {
            let keep = |pr: (u128, TransferRow)| keep_rule(pr, None, none@, Some(id));
            assert(keep =~= |pr: (u128, TransferRow)| pr.1.id != id);
            lemma_retain_keeps(old(self)@, keep);
        }
    }

    /// Clear in the Transfers header: drops the rows of the bound pane and
    /// returns their ids, whose jobs the caller cancels.
    pub fn clear_transfers(&mut self, bound: Option<u128>) -> (cancelled: Vec<u128>)
        requires
            old(self).wf(),
        ensures
            final(self).wf(),
            bound is None ==> final(self)@ == old(self)@ && cancelled@.len() == 0,
            bound matches Some(p) ==> final(self)@ == retain_rows(old(self)@, |pr: (u128, TransferRow)| pr.0 != p)
                && cancelled@ == dropped_ids(old(self)@, |pr: (u128, TransferRow)| pr.0 != p),
    {
        match bound {
            None => Vec::new(),
            Some(p) => {
                let none: Vec<u128> = Vec::new();
                let dropped = self.retain(Some(p), none.as_slice(), None);
                proof {
                    let keep = |pr: (u128, TransferRow)| keep_rule(pr, Some(p), none@, None);
                    assert(keep =~= |pr: (u128, TransferRow)| pr.0 != p);
                }
                dropped
            },
        }
    }

    /// Drops the rows of panes that are no longer open (`live` lists the
    /// open panes) and returns their ids, whose jobs the caller cancels.
    pub fn prune_closed_pane_transfers(&mut self, live: &[u128]) -> (cancelled: Vec<u128>)
        requires
            old(self).wf(),
        ensures
            final(self).wf(),
            final(self)@ == retain_rows(old(self)@, |pr: (u128, TransferRow)| live@.contains(pr.0)),
            cancelled@ == dropped_ids(old(self)@, |pr: (u128, TransferRow)| live@.contains(pr.0)),
    {
        let dropped = self.retain(None, live, None);
        proof {
            let keep = |pr: (u128, TransferRow)| keep_rule(pr, None, live@, None);
            assert(keep =~= |pr: (u128, TransferRow)| live@.contains(pr.0));
        }
        dropped
    }
}

/// The three removal rules: by pane, by open panes, by id.
pub open spec fn keep_rule(pr: (u128, TransferRow), pane: Option<u128>, live: Seq<u128>, by_id: Option<u128>) -> bool {
    match by_id {
        Some(id) => pr.1.id != id,
        None => match pane {
            Some(p) => pr.0 != p,
            None => live.contains(pr.0),
        },
    }
}

fn keep_exec(pr_pane: u128, pr_id: u128, pane: Option<u128>, live: &[u128], by_id: Option<u128>) -> (k: bool)
    ensures
        forall|r: TransferRow| r.id == pr_id ==> k == keep_rule((pr_pane, r), pane, live@, by_id),
{
    match by_id {
        Some(id) => pr_id != id,
        None => match pane {
            Some(p) => pr_pane != p,
            None => {
                let mut i: usize = 0;
                while i < live.len()
                    invariant
                        0 <= i <= live@.len(),
                        by_id is None,
                        pane is None,
                        forall|k: int| 0 <= k < i ==> live@[k] != pr_pane,
                    decreases live@.len() - i,
                {
                    if live[i] == pr_pane {
                        assert(live@[i as int] == pr_pane);
                        assert(live@.contains(pr_pane));
                        return true;
                    }
                    i += 1;
                }
                assert(!live@.contains(pr_pane));
                false
            },
        },
    }
}

/// Every row that `retain_rows` keeps satisfies `keep`.
pub proof fn lemma_retain_keeps(rows: Seq<(u128, TransferRow)>, keep: spec_fn((u128, TransferRow)) -> bool)
    ensures
        forall|i: int|
            0 <= i < retain_rows(rows, keep).len() ==> keep(#[trigger] retain_rows(rows, keep)[i]),
    decreases rows.len(),
{
    if rows.len() > 0 {
        lemma_retain_keeps(rows.drop_last(), keep);
        let rest = retain_rows(rows.drop_last(), keep);
        assert forall|i: int| 0 <= i < retain_rows(rows, keep).len() implies keep(
            #[trigger] retain_rows(rows, keep)[i],
        ) by {
            if i < rest.len() {
                assert(retain_rows(rows, keep)[i] == rest[i]);
            }
        }
    }
}

/// A new row goes to the front of its own pane's list; every other pane's
/// list stays as it was.
pub proof fn law_insert_isolated(rows: Seq<(u128, TransferRow)>, pane: u128, row: TransferRow, other: u128)
    ensures
        pane_rows(seq![(pane, row)] + rows, other) == if other == pane {
            seq![row] + pane_rows(rows, pane)
        } else {
            pane_rows(rows, other)
        },
    decreases rows.len(),
{
    if rows.len() == 0 {
        assert((seq![(pane, row)] + rows).drop_last() =~= rows);
        assert(seq![row] + pane_rows(rows, pane) =~= seq![row]);
    } else {
        assert((seq![(pane, row)] + rows).drop_last() =~= seq![(pane, row)] + rows.drop_last());
        law_insert_isolated(rows.drop_last(), pane, row, other);
        if other == pane {
            if rows.last().0 == pane {
                assert(seq![row] + pane_rows(rows.drop_last(), pane).push(rows.last().1) =~= (seq![row]
                    + pane_rows(rows.drop_last(), pane)).push(rows.last().1));
            }
        }
    }
}

/// Removing rows by their pane leaves a kept pane's list as it was and
/// empties a dropped one.
pub proof fn law_retain_by_pane(
    rows: Seq<(u128, TransferRow)>,
    keep: spec_fn((u128, TransferRow)) -> bool,
    keep_pane: spec_fn(u128) -> bool,
    q: u128,
)
    requires
        forall|pr: (u128, TransferRow)| #[trigger] keep(pr) == keep_pane(pr.0),
    ensures
        pane_rows(retain_rows(rows, keep), q) == if keep_pane(q) {
            pane_rows(rows, q)
        } else {
            Seq::<TransferRow>::empty()
        },
    decreases rows.len(),
{
    if rows.len() > 0 {
        law_retain_by_pane(rows.drop_last(), keep, keep_pane, q);
        assert(keep(rows.last()) == keep_pane(rows.last().0));
        if keep(rows.last()) {
            assert(retain_rows(rows, keep).drop_last() =~= retain_rows(rows.drop_last(), keep));
        }
    }
}

/// Clear empties the bound pane's list and no other.
pub proof fn law_clear_only_bound(rows: Seq<(u128, TransferRow)>, bound: u128, q: u128)
    ensures
        pane_rows(retain_rows(rows, |pr: (u128, TransferRow)| pr.0 != bound), q) == if q == bound {
            Seq::<TransferRow>::empty()
        } else {
            pane_rows(rows, q)
        },
{
    law_retain_by_pane(rows, |pr: (u128, TransferRow)| pr.0 != bound, |p: u128| p != bound, q);
}

/// Pruning keeps exactly the lists of open panes.
pub proof fn law_prune_keeps_open(rows: Seq<(u128, TransferRow)>, live: Seq<u128>, q: u128)
    ensures
        pane_rows(retain_rows(rows, |pr: (u128, TransferRow)| live.contains(pr.0)), q) == if live.contains(q) {
            pane_rows(rows, q)
        } else {
            Seq::<TransferRow>::empty()
        },
{
    law_retain_by_pane(rows, |pr: (u128, TransferRow)| live.contains(pr.0), |p: u128| live.contains(p), q);
}

/// Progress, completion and failure change a row in place: every position
/// keeps its pane and id, and only the row with the reported id changes.
pub proof fn law_updates_keep_identity(
    rows: Seq<(u128, TransferRow)>,
    p: TransferProgress,
    id: u128,
    files: Option<u32>,
    bytes: Option<u64>,
    msg: String,
    now: u64,
    i: int,
)
    requires
        0 <= i < rows.len(),
    ensures
        ({
            let a = map_row(rows, p.id, |r: TransferRow| progressed(r, p, now));
            let b = map_row(rows, id, |r: TransferRow| finished(r, files, bytes, now));
            let c = map_row(rows, id, |r: TransferRow| failed(r, msg, now));
            &&& a.len() == rows.len() && b.len() == rows.len() && c.len() == rows.len()
            &&& a[i].0 == rows[i].0 && a[i].1.id == rows[i].1.id
            &&& b[i].0 == rows[i].0 && b[i].1.id == rows[i].1.id
            &&& c[i].0 == rows[i].0 && c[i].1.id == rows[i].1.id
            &&& rows[i].1.id != p.id ==> a[i] == rows[i]
            &&& rows[i].1.id != id ==> b[i] == rows[i] && c[i] == rows[i]
            &&& rows[i].1.id == id ==> b[i].1.status is Done && c[i].1.status == TransferStatus::Failed(msg)
            &&& rows[i].1.id == p.id ==> a[i].1.status is Running
        }),
{
}

/// One piece of a transfer row's status line; sizes, rates, percentages
/// and durations are turned into text by the caller.
#[derive(Debug)]
pub enum StatusPart {
    /// "Queued".
    Queued,
    /// "Scanning · {n}": a folder job walking its tree.
    ScanningCount(u32),
    /// "Scanning…".
    Scanning,
    /// "{files_done}/{files_total}".
    FileCount { files_done: u32, files_total: u32 },
    /// "…".
    Pending,
    /// Whole percent of `done` bytes out of `total`.
    Percent { done: u64, total: u64 },
    Size(u64),
    /// "{done} / {total}" sizes.
    SizePair { done: u64, total: u64 },
    /// "Done".
    Done,
    /// "{n}/{n}" files of a finished folder job.
    FilesDone(u32),
    /// "Cancelled".
    Cancelled,
    /// "Failed · {message}" (the caller shortens long messages).
    Failed(String),
    /// Average rate of `bytes` moved in `elapsed_ms`.
    Rate { bytes: u64, elapsed_ms: u64 },
    /// Elapsed time.
    Elapsed(u64),
}

/// A status line: the head parts, a size part that the caller adds unless
/// it reads the same as a head part, and the tail parts.
pub struct StatusLabel {
    pub head: Vec<StatusPart>,
    pub size: Option<StatusPart>,
    pub tail: Vec<StatusPart>,
}

/// A folder job that is still walking its tree.
pub open spec fn is_scanning(row: TransferRow) -> bool {
    row.is_dir && row.bytes_done == 0 && match row.status {
        TransferStatus::Running { files_done, .. } => files_done == Some(0u32) || files_done is None,
        _ => false,
    }
}

/// A failure message that reports a cancellation.
pub open spec fn mentions_cancel(msg: Seq<char>) -> bool {
    text::spec_contains_seq(file_icon::lower(msg), "cancelled"@) || text::spec_contains_seq(
        file_icon::lower(msg),
        "canceled"@,
    )
}

/// The part that describes a running job.
pub open spec fn running_part(row: TransferRow, done: u64, total: Option<u64>, files_done: Option<u32>, files_total: Option<u32>) -> StatusPart {
    if is_scanning(row) {
        match files_total {
            Some(t) => StatusPart::ScanningCount(t),
            None => StatusPart::Scanning,
        }
    } else if row.is_dir || files_total is Some || files_done is Some {
        match files_total {
            Some(t) => StatusPart::FileCount {
                files_done: match files_done {
                    Some(d) => d,
                    None => 0,
                },
                files_total: t,
            },
            None => StatusPart::Pending,
        }
    } else {
        match total {
            Some(t) if t > 0 => StatusPart::Percent { done, total: t },
            _ => if done > 0 {
                StatusPart::Size(done)
            } else {
                StatusPart::Pending
            },
        }
    }
}

/// Head parts: the state, and for a queued job its known size.
pub open spec fn status_head(row: TransferRow) -> Seq<StatusPart> {
    match row.status {
        TransferStatus::Queued => match row.bytes_total {
            Some(t) => if t > 0 {
                seq![StatusPart::Queued, StatusPart::Size(t)]
            } else {
                seq![StatusPart::Queued]
            },
            None => seq![StatusPart::Queued],
        },
        TransferStatus::Running { done, total, files_done, files_total } => seq![
            running_part(row, done, total, files_done, files_total),
        ],
        TransferStatus::Done { files } => match files {
            Some(n) => seq![StatusPart::Done, StatusPart::FilesDone(n)],
            None => seq![StatusPart::Done],
        },
        TransferStatus::Failed(msg) => seq![
            if mentions_cancel(msg@) {
                StatusPart::Cancelled
            } else {
                StatusPart::Failed(msg)
            },
        ],
    }
}

/// A running folder job that is past its scan shows, as its one head part,
/// the file count the worker reported: files done (0 until reported) out
/// of the files in total, never more done than reported; with no total yet
/// it shows the pending mark.
pub proof fn law_running_folder_counts(row: TransferRow)
    requires
        row.is_dir,
        !is_scanning(row),
        row.status is Running,
    ensures
        status_head(row).len() == 1,
        row.status->files_total matches Some(t) ==> status_head(row)[0] == (StatusPart::FileCount {
            files_done: match row.status->files_done {
                Some(d) => d,
                None => 0,
            },
            files_total: t,
        }),
        row.status->files_total is None ==> status_head(row)[0] == StatusPart::Pending,
{
}

/// The size part of a job that has left the queue.
pub open spec fn status_size(row: TransferRow) -> Option<StatusPart> {
    let scanning = is_scanning(row);
    if row.status is Queued {
        None
    } else {
        match row.bytes_total {
            Some(total) => if total > 0 {
                if !scanning && row.bytes_done > 0 && row.bytes_done < total {
                    Some(StatusPart::SizePair { done: row.bytes_done, total })
                } else if scanning || row.bytes_done >= total || row.bytes_done == 0 {
                    Some(StatusPart::Size(total))
                } else {
                    None
                }
            } else {
                None
            },
            None => if !scanning && row.bytes_done > 0 {
                Some(StatusPart::Size(row.bytes_done))
            } else {
                None
            },
        }
    }
}

/// Time spent: the recorded time of a finished or failed job, else the
/// time since it started.
pub open spec fn elapsed_of(row: TransferRow, now: u64) -> Option<u64> {
    match row.elapsed_ms {
        Some(e) => Some(e),
        None => match row.started_ms {
            Some(t) => Some(since(t, now)),
            None => None,
        },
    }
}

/// Tail parts: the average rate while bytes move, then the elapsed time.
pub open spec fn status_tail(row: TransferRow, now: u64) -> Seq<StatusPart> {
    if row.status is Queued {
        Seq::empty()
    } else {
        let rate = if !is_scanning(row) && row.status is Running && row.bytes_done > 0 {
            match row.started_ms {
                Some(t) => seq![StatusPart::Rate { bytes: row.bytes_done, elapsed_ms: since(t, now) }],
                None => Seq::empty(),
            }
        } else {
            Seq::empty()
        };
        match elapsed_of(row, now) {
            Some(d) => if row.status is Running || row.status is Done || (row.status is Failed
                && row.started_ms is Some) {
                rate.push(StatusPart::Elapsed(d))
            } else {
                rate
            },
            None => rate,
        }
    }
}

fn mentions_cancel_exec(msg: &str) -> (yes: bool)
    ensures
        yes == mentions_cancel(msg@),
{
    let chars = text::chars_of(msg);
    let lower = text::ascii_lower_chars(chars.as_slice());
    assert(lower@ == file_icon::lower(msg@));
    text::contains_str(lower.as_slice(), "cancelled") || text::contains_str(lower.as_slice(), "canceled")
}

/// The status line of a transfer row at clock `now`.
pub fn transfer_status_parts(row: &TransferRow, now: u64) -> (label: StatusLabel)
    ensures
        label.head@ == status_head(*row),
        label.size == status_size(*row),
        label.tail@ == status_tail(*row, now),
{
    let scanning = row.is_dir && row.bytes_done == 0 && match &row.status {
        TransferStatus::Running { files_done, .. } => match files_done {
            Some(d) => *d == 0,
            None => true,
        },
        _ => false,
    };
    assert(scanning == is_scanning(*row));
    let mut head: Vec<StatusPart> = Vec::new();
    match &row.status {
        TransferStatus::Queued => {
            head.push(StatusPart::Queued);
            match row.bytes_total {
                Some(t) => if t > 0 {
                    head.push(StatusPart::Size(t));
                },
                None => {},
            }
            let label = StatusLabel { head, size: None, tail: Vec::new() };
            assert(label.head@ =~= status_head(*row));
            assert(label.tail@ =~= status_tail(*row, now));
            return label;
        },
        TransferStatus::Running { done, total, files_done, files_total } => {
            let part = if scanning {
                match files_total {
                    Some(t) => StatusPart::ScanningCount(*t),
                    None => StatusPart::Scanning,
                }
            } else if row.is_dir || files_total.is_some() || files_done.is_some() {
                match files_total {
                    Some(t) => StatusPart::FileCount {
                        files_done: match files_done {
                            Some(d) => *d,
                            None => 0,
                        },
                        files_total: *t,
                    },
                    None => StatusPart::Pending,
                }
            } else {
                match total {
                    Some(t) if *t > 0 => StatusPart::Percent { done: *done, total: *t },
                    _ => if *done > 0 {
                        StatusPart::Size(*done)
                    } else {
                        StatusPart::Pending
                    },
                }
            };
            head.push(part);
        },
        TransferStatus::Done { files } => {
            head.push(StatusPart::Done);
            match files {
                Some(n) => head.push(StatusPart::FilesDone(*n)),
                None => {},
            }
        },
        TransferStatus::Failed(msg) => {
            if mentions_cancel_exec(msg.as_str()) {
                head.push(StatusPart::Cancelled);
            } else {
                head.push(StatusPart::Failed(msg.clone()));
            }
        },
    }
    assert(head@ =~= status_head(*row));
    let size = match row.bytes_total {
        Some(total) => if total > 0 {
            if !scanning && row.bytes_done > 0 && row.bytes_done < total {
                Some(StatusPart::SizePair { done: row.bytes_done, total })
            } else if scanning || row.bytes_done >= total || row.bytes_done == 0 {
                Some(StatusPart::Size(total))
            } else {
                None
            }
        } else {
            None
        },
        None => if !scanning && row.bytes_done > 0 {
            Some(StatusPart::Size(row.bytes_done))
        } else {
            None
        },
    };
    let running = match &row.status {
        TransferStatus::Running { .. } => true,
        _ => false,
    };
    let mut tail: Vec<StatusPart> = Vec::new();
    if !scanning && running && row.bytes_done > 0 {
        match row.started_ms {
            Some(t) => tail.push(
                StatusPart::Rate {
                    bytes: row.bytes_done,
                    elapsed_ms: if now >= t {
                        now - t
                    } else {
                        0
                    },
                },
            ),
            None => {},
        }
    }
    let elapsed = match row.elapsed_ms {
        Some(e) => Some(e),
        None => match row.started_ms {
            Some(t) => Some(
                if now >= t {
                    now - t
                } else {
                    0
                },
            ),
            None => None,
        },
    };
    let shows_elapsed = match &row.status {
        TransferStatus::Running { .. } => true,
        TransferStatus::Done { .. } => true,
        TransferStatus::Failed(_) => row.started_ms.is_some(),
        TransferStatus::Queued => false,
    };
    match elapsed {
        Some(d) => if shows_elapsed {
            tail.push(StatusPart::Elapsed(d));
        },
        None => {},
    }
    assert(tail@ =~= status_tail(*row, now));
    StatusLabel { head, size, tail }
}

// ---------------------------------------------------------------- job lifecycle

/// Why a download cannot start, if it cannot.
pub open spec fn download_refusal(has_session: bool, open_after: bool, is_dir: bool) -> Option<Seq<char>> {
    if !has_session {
        Some("No SSH session"@)
    } else if open_after && is_dir {
        Some("Cannot open a remote folder this way"@)
    } else {
        None
    }
}

pub fn check_download(has_session: bool, open_after: bool, is_dir: bool) -> (refusal: Option<&'static str>)
    ensures
        match refusal {
            Some(m) => download_refusal(has_session, open_after, is_dir) == Some(m@),
            None => download_refusal(has_session, open_after, is_dir) is None,
        },
{
    if !has_session {
        Some("No SSH session")
    } else if open_after && is_dir {
        Some("Cannot open a remote folder this way")
    } else {
        None
    }
}

/// The notice shown when a download will open once it is done.
pub fn open_after_notice(name: &str) -> (s: String)
    ensures
        s@ == "Downloading “"@ + name@ + "” — opens when ready"@,
{
    let mut s = text::owned("Downloading “");
    s.append(name);
    s.append("” — opens when ready");
    s
}

/// Bytes of `c` in UTF-8.
pub open spec fn utf8_len(c: char) -> nat {
    if (c as u32) < 0x80 {
        1
    } else if (c as u32) < 0x800 {
        2
    } else if (c as u32) < 0x10000 {
        3
    } else {
        4
    }
}

/// Bytes in UTF-8 of the first `n` characters of `s`.
pub open spec fn utf8_prefix(s: Seq<char>, n: int) -> nat
    decreases n,
{
    if n <= 0 {
        0
    } else {
        utf8_prefix(s, n - 1) + utf8_len(s[n - 1])
    }
}

proof fn lemma_utf8_prefix_mono(s: Seq<char>, a: int, b: int)
    requires
        a <= b,
    ensures
        utf8_prefix(s, a) <= utf8_prefix(s, b),
    decreases b - a,
{
    if a < b {
        lemma_utf8_prefix_mono(s, a, b - 1);
    }
}

/// Longest shown part of a failure message, in UTF-8 bytes.
pub const FAILURE_SHOWN_BYTES: u64 = 28;

/// A failure message as the Transfers row shows it: whole when it takes at
/// most `FAILURE_SHOWN_BYTES` bytes, else the most characters that fit in
/// that many bytes, then `…` (never cutting a character apart).
pub fn short_failure(msg: &str) -> (shown: String)
    ensures
        utf8_prefix(msg@, msg@.len() as int) <= FAILURE_SHOWN_BYTES ==> shown@ == msg@,
        utf8_prefix(msg@, msg@.len() as int) > FAILURE_SHOWN_BYTES ==> exists|k: int|
            {
                &&& 0 <= k < msg@.len()
                &&& utf8_prefix(msg@, k) <= FAILURE_SHOWN_BYTES
                &&& utf8_prefix(msg@, k + 1) > FAILURE_SHOWN_BYTES
                &&& shown@ == msg@.subrange(0, k) + "…"@
            },
{
    let chars = text::chars_of(msg);
    let n = chars.len();
    let mut i: usize = 0;
    let mut used: u64 = 0;
    loop
        invariant_except_break
            chars@ == msg@,
            n == chars@.len(),
            0 <= i <= n,
            used == utf8_prefix(msg@, i as int),
            used <= FAILURE_SHOWN_BYTES,
        ensures
            chars@ == msg@,
            n == chars@.len(),
            0 <= i <= n,
            used == utf8_prefix(msg@, i as int),
            used <= FAILURE_SHOWN_BYTES,
            i < n ==> utf8_prefix(msg@, i + 1) > FAILURE_SHOWN_BYTES,
        decreases n - i,
    {
        if i == n {
            break;
        }
        let c = chars[i];
        let cu = c as u32;
        let w: u64 = if cu < 0x80 {
            1
        } else if cu < 0x800 {
            2
        } else if cu < 0x10000 {
            3
        } else {
            4
        };
        assert(w == utf8_len(msg@[i as int]));
        if used + w > FAILURE_SHOWN_BYTES {
            break;
        }
        used = used + w;
        i = i + 1;
    }
    if i == n {
        assert(chars@.subrange(0, n as int) =~= msg@);
        return text::string_of(chars.as_slice());
    }
    proof {
        lemma_utf8_prefix_mono(msg@, i + 1, msg@.len() as int);
    }
    let mut out = String::new();
    text::push_range(&mut out, chars.as_slice(), 0, i);
    out.append("…");
    assert(out@ == msg@.subrange(0, i as int) + "…"@);
    out
}

/// The label of an upload: the file name of the local path, or the path
/// itself when it has none. For a path written with `/` whose last part is
/// a bare name, that part; for other paths which file name the platform's
/// path rules give is not stated.
pub fn upload_label(local: &str) -> (label: String)
    ensures
        local@.len() > 0 ==> label@.len() > 0,
        file_icon::slash_path_name(local@) matches Some(c) ==> label@ == c,
{
    match file_icon::path_file_name(local) {
        Some(f) => f,
        None => text::owned(local),
    }
}

/// A character that cannot stand in a file name here.
pub open spec fn unsafe_in_name(c: char) -> bool {
    c == '/' || c == '\\' || c == '\0' || c == ':'
}

/// The name a download-then-open file is written under: `name` with
/// path separators, NUL and `:` replaced by `_`, or `download` when empty.
pub open spec fn spec_safe_cache_name(name: Seq<char>) -> Seq<char> {
    if name.len() == 0 {
        "download"@
    } else {
        name.map_values(|c: char| if unsafe_in_name(c) { '_' } else { c })
    }
}

pub fn safe_cache_name(name: &str) -> (safe: String)
    ensures
        safe@ == spec_safe_cache_name(name@),
{
    let chars = text::chars_of(name);
    if chars.len() == 0 {
        return text::owned("download");
    }
    let mut out = String::new();
    let mut i: usize = 0;
    while i < chars.len()
        invariant
            chars@ == name@,
            0 <= i <= chars@.len(),
            out@ == chars@.subrange(0, i as int).map_values(
                |c: char| if unsafe_in_name(c) { '_' } else { c },
            ),
        decreases chars@.len() - i,
    {
        let c = chars[i];
        let d = if c == '/' || c == '\\' || c == '\0' || c == ':' {
            '_'
        } else {
            c
        };
        text::push_char(&mut out, d);
        i += 1;
        assert(out@ =~= chars@.subrange(0, i as int).map_values(
            |c: char| if unsafe_in_name(c) { '_' } else { c },
        ));
    }
    assert(chars@.subrange(0, chars@.len() as int) =~= chars@);
    out
}

/// Where a download goes, once asked.
#[derive(Debug)]
pub enum Destination {
    /// The folder or file the user picked (or the temporary file).
    Chosen(String),
    /// The save dialog was dismissed.
    Dismissed,
    /// The temporary folder for open-after downloads could not be made.
    TempFolderFailed(String),
}

/// How a transfer job ended.
#[derive(Debug)]
pub enum JobReply {
    Done { files: u32, bytes: u64 },
    Failed(String),
    /// The job went away without answering.
    Dropped,
}

/// What the caller does once a job ended.
#[derive(Debug)]
pub enum JobEnd {
    /// The row was removed meanwhile: nothing.
    Gone,
    /// Done: open `open` if set (an open-after download); after an upload,
    /// list the current folder again.
    Finished { open: Option<String>, reload: bool },
    /// Marked failed.
    Failed,
    /// A cancelled job: its row was dropped.
    Removed,
}

/// The failure message of a job, or `None` when it reports a cancellation
/// (its row is then dropped).
pub open spec fn job_failure(reply: JobReply) -> Option<Seq<char>> {
    match reply {
        JobReply::Done { .. } => None,
        JobReply::Failed(m) => if text::spec_contains_seq(m@, "cancelled"@) {
            None
        } else {
            Some(m@)
        },
        JobReply::Dropped => Some("Transfer cancelled"@),
    }
}

impl Transfers {
    /// The destination of download `id` is known (or not).
    pub fn download_destination(&mut self, id: u128, dest: Destination, now: u64)
        requires
            old(self).wf(),
        ensures
            final(self).wf(),
            match dest {
                Destination::Chosen(local) => final(self)@ == map_row(
                    old(self)@,
                    id,
                    |r: TransferRow|
                        TransferRow { local_path: Some(local), status: TransferStatus::Queued, ..r },
                ),
                Destination::Dismissed => exists|m: String|
                    #![trigger m@]
                    m@ == "Cancelled"@ && final(self)@ == map_row(old(self)@, id, |r: TransferRow| failed(r, m, now)),
                Destination::TempFolderFailed(e) => exists|m: String|
                    #![trigger m@]
                    m@ == "Temp folder: "@ + e@ && final(self)@ == map_row(
                        old(self)@,
                        id,
                        |r: TransferRow| failed(r, m, now),
                    ),
            },
    {
        match dest {
            Destination::Chosen(local) => self.set_download_destination(id, local),
            Destination::Dismissed => {
                let m = text::owned("Cancelled");
                self.fail_transfer(id, m, now);
            },
            Destination::TempFolderFailed(e) => {
                let mut m = text::owned("Temp folder: ");
                m.append(e.as_str());
                self.fail_transfer(id, m, now);
            },
        }
    }

    /// Job `id` (a folder job when `is_dir`, an upload when `upload`)
    /// answered at clock `now`.
    pub fn job_reply(&mut self, id: u128, is_dir: bool, upload: bool, reply: JobReply, now: u64) -> (end: JobEnd)
        requires
            old(self).wf(),
        ensures
            final(self).wf(),
            !has_id(old(self)@, id) ==> end is Gone && final(self)@ == old(self)@,
            has_id(old(self)@, id) ==> match reply {
                JobReply::Done { files, bytes } => {
                    let fs = if is_dir {
                        Some(files)
                    } else {
                        None
                    };
                    &&& final(self)@ == map_row(old(self)@, id, |r: TransferRow| finished(r, fs, Some(bytes), now))
                    &&& end matches JobEnd::Finished { open, reload } && reload == upload && forall|i: int|
                        0 <= i < old(self)@.len() && (#[trigger] old(self)@[i]).1.id == id ==> open == (
                        if old(self)@[i].1.open_after {
                            old(self)@[i].1.local_path
                        } else {
                            None
                        })
                },
                _ => match job_failure(reply) {
                    Some(msg) => end is Failed && exists|m: String|
                        #![trigger m@]
                        m@ == msg && final(self)@ == map_row(old(self)@, id, |r: TransferRow| failed(r, m, now)),
                    None => end is Removed && final(self)@ == retain_rows(
                        old(self)@,
                        |pr: (u128, TransferRow)| pr.1.id != id,
                    ),
                },
            },
    {
        if !self.has_transfer(id) {
            return JobEnd::Gone;
        }
        match reply {
            JobReply::Done { files, bytes } => {
                let fs = if is_dir {
                    Some(files)
                } else {
                    None
                };
                let open = self.finish_transfer(id, fs, Some(bytes), now);
                JobEnd::Finished { open, reload: upload }
            },
            JobReply::Failed(m) => {
                let chars = text::chars_of(m.as_str());
                if text::contains_str(chars.as_slice(), "cancelled") {
                    self.remove_transfer(id);
                    JobEnd::Removed
                } else {
                    self.fail_transfer(id, m, now);
                    JobEnd::Failed
                }
            },
            JobReply::Dropped => {
                self.fail_transfer(id, text::owned("Transfer cancelled"), now);
                JobEnd::Failed
            },
        }
    }
}

} // verus!
