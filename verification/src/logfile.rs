use itertools::Itertools;
use vstd::prelude::*;

verus! {

/// A log file: its modification time (nanoseconds relative to the Unix epoch),
/// its position in the directory listing, and its path.
#[derive(Debug)]
pub struct LogFile {
    pub modified: i128,
    pub index: usize,
    pub path: String,
}

/// Whether `a` sorts before `b`: older first, and by listing position among files
/// of the same age.
pub open spec fn log_file_before(a: LogFile, b: LogFile) -> bool {
    a.modified < b.modified || (a.modified == b.modified && a.index < b.index)
}

/// The files of a directory listing, each with its position.
pub open spec fn tagged_files(files: Seq<(i128, String)>) -> Seq<LogFile> {
    Seq::new(files.len(), |i: int| LogFile { modified: files[i].0, index: i as usize, path: files[i].1 })
}

/// Whether `r` holds the files of `files` ordered from the oldest to the newest.
pub open spec fn is_age_order(files: Seq<(i128, String)>, r: Seq<LogFile>) -> bool {
    &&& r.to_multiset() == tagged_files(files).to_multiset()
    &&& forall|i: int, j: int| 0 <= i < j < r.len() ==> log_file_before(#[trigger] r[i], #[trigger] r[j])
}

/// Calls `itertools::Itertools::sorted_by_key` with the modification time as key.
/// The sort is stable, so when the positions increase along `files`, the result is
/// `files` rearranged in the order `log_file_before`.
#[verifier::external_body]
fn sort_by_modified(files: Vec<LogFile>) -> (r: Vec<LogFile>)
    requires
        forall|i: int, j: int| 0 <= i < j < files@.len() ==> #[trigger] files@[i].index < #[trigger] files@[j].index,
    ensures
        r@.to_multiset() == files@.to_multiset(),
        forall|i: int, j: int| 0 <= i < j < r@.len() ==> log_file_before(#[trigger] r@[i], #[trigger] r@[j]),
{
    files.into_iter().sorted_by_key(|f| f.modified).collect()
}

/// The paths of the files beyond the `keep` newest ones of `sorted` (ordered from the
/// oldest to the newest), newest first.
pub open spec fn paths_beyond_newest(sorted: Seq<LogFile>, keep: int) -> Seq<Seq<char>> {
    if keep < sorted.len() {
        sorted.reverse().skip(keep).map_values(|f: LogFile| f.path@)
    } else {
        Seq::empty()
    }
}

/// The files to delete so that the `files_to_keep` newest files remain, newest first.
/// Of files with the same modification time, the one listed later counts as newer.
pub fn files_to_delete(files: Vec<(i128, String)>, files_to_keep: usize) -> (r: Vec<String>)
    ensures
        exists|sorted: Seq<LogFile>|
            is_age_order(files@, sorted) && r@.map_values(|p: String| p@) == paths_beyond_newest(
                sorted,
                files_to_keep as int,
            ),
{
    let ghost listing = files@;
    let n = files.len();
    let mut tagged: Vec<LogFile> = Vec::new();
    let mut i: usize = 0;
    while i < n
        invariant
            n == files@.len(),
            listing == files@,
            i <= n,
            tagged@.len() == i,
            forall|k: int| 0 <= k < i ==> #[trigger] tagged@[k] == tagged_files(listing)[k],
        decreases n - i,
    {
        let path = files[i].1.clone();
        tagged.push(LogFile { modified: files[i].0, index: i, path });
        i += 1;
    }
    assert(tagged@ =~= tagged_files(listing));
    let sorted = sort_by_modified(tagged);
    let len = sorted.len();
    let mut out: Vec<String> = Vec::new();
    if files_to_keep < len {
        let mut j: usize = len - files_to_keep;
        while j > 0
            invariant
                len == sorted@.len(),
                files_to_keep < len,
                j <= len - files_to_keep,
                out@.len() == len - files_to_keep - j,
                forall|m: int| 0 <= m < out@.len() ==> #[trigger] out@[m]@ == sorted@[len - 1 - files_to_keep - m].path@,
            decreases j,
        {
            j -= 1;
            let path = sorted[j].path.clone();
            out.push(path);
        }
    }
    let ghost s = sorted@;
    assert(is_age_order(listing, s));
    assert(out@.map_values(|p: String| p@) =~= paths_beyond_newest(s, files_to_keep as int));
    out
}

/// The files deleted are the oldest ones, newest first: of the files ordered from the
/// oldest to the newest, all but the `keep` newest, and none when there are at most `keep`.
pub proof fn lemma_deletes_oldest(sorted: Seq<LogFile>, keep: int)
    requires
        0 <= keep,
    ensures
        keep < sorted.len() ==> paths_beyond_newest(sorted, keep) == sorted.take(sorted.len() - keep).reverse().map_values(
            |f: LogFile| f.path@,
        ),
        paths_beyond_newest(sorted, keep).len() == if keep < sorted.len() {
            sorted.len() - keep
        } else {
            0
        },
{
    if keep < sorted.len() {
        assert(paths_beyond_newest(sorted, keep) =~= sorted.take(sorted.len() - keep).reverse().map_values(
            |f: LogFile| f.path@,
        ));
    }
}

/// Writes logs into a directory and, on the first of every 256 flushes, deletes
/// the oldest log files so that a fixed number remains.
#[derive(Debug)]
pub struct LogFileWriter<T> {
    inner: T,
    directory: String,
    files_to_keep: usize,
    cnt: u8,
}

impl<T> LogFileWriter<T> {
    pub closed spec fn spec_directory(&self) -> Seq<char> {
        self.directory@
    }

    pub closed spec fn spec_files_to_keep(&self) -> usize {
        self.files_to_keep
    }

    /// The number of flushes so far, modulo 256.
    pub closed spec fn spec_flush_count(&self) -> u8 {
        self.cnt
    }

    pub closed spec fn spec_inner(&self) -> T {
        self.inner
    }

    pub fn new(inner: T, directory: String, files_to_keep: usize) -> (r: Self)
        ensures
            r.spec_inner() == inner,
            r.spec_directory() == directory@,
            r.spec_files_to_keep() == files_to_keep,
            r.spec_flush_count() == 0,
    {
        LogFileWriter { inner, directory, files_to_keep, cnt: 0 }
    }

    /// Counts a flush; `true` when old log files should be deleted now, which is the
    /// case on the first flush and then on every 256th.
    pub fn count_flush(&mut self) -> (r: bool)
        ensures
            final(self).spec_flush_count() as int == (old(self).spec_flush_count() as int + 1) % 256,
            r == (final(self).spec_flush_count() == 1),
            final(self).spec_directory() == old(self).spec_directory(),
            final(self).spec_files_to_keep() == old(self).spec_files_to_keep(),
            final(self).spec_inner() == old(self).spec_inner(),
    {
        self.cnt = if self.cnt == 255 {
            0
        } else {
            self.cnt + 1
        };
        self.cnt == 1
    }

    pub fn directory(&self) -> (r: &str)
        ensures
            r@ == self.spec_directory(),
    {
        self.directory.as_str()
    }

    pub fn files_to_keep(&self) -> (r: usize)
        ensures
            r == self.spec_files_to_keep(),
    {
        self.files_to_keep
    }

    pub fn inner_mut(&mut self) -> (r: &mut T)
        ensures
            *r == old(self).spec_inner(),
            final(self).spec_inner() == *final(r),
            final(self).spec_directory() == old(self).spec_directory(),
            final(self).spec_files_to_keep() == old(self).spec_files_to_keep(),
            final(self).spec_flush_count() == old(self).spec_flush_count(),
    {
        &mut self.inner
    }
}

} // verus!
