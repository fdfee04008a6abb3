//! The bridge and the two tasks.  The bridge persists named backups,
//! transparently layering the compression/encryption envelope, and keeps the
//! catalog: the catalog grows only when a write has fully succeeded, and a
//! restore never mutates it.  The tasks drive one full run each — backup:
//! source stream into the bridge; restore: bridge stream back out — and
//! report progress after every chunk.

use vstd::prelude::*;
use crate::catalog::{Backup, IndexFile, ReadOptions, contains_name, distinct_names, is_newest};
use crate::envelope::{
    apply_envelope, open_envelope, recovered_spec, stored_spec,
};
use crate::errors::CoreError;

verus! {

/// Bytes moved so far in a run.
pub type TransferredBytes = usize;

/// Known total of a run, `0` meaning the total is indeterminate.
pub type MaxBytes = usize;

/// The encryption key as the envelope sees it.
pub open spec fn key_view(key: Option<Vec<u8>>) -> Option<Seq<u8>> {
    match key {
        Some(k) => Some(k@),
        None => None,
    }
}

/// Storage abstraction over an object store: the stored objects, the
/// catalog describing them, and the envelope configuration.
pub struct Bridge {
    pub index: IndexFile,
    pub objects: Vec<Vec<u8>>,
    pub compression: bool,
    pub encryption_key: Option<Vec<u8>>,
}

impl Bridge {
    /// The bridge's internal consistency: one object per catalog entry, no
    /// two entries under one name, recorded sizes match the stored bytes,
    /// and a configured key is never empty.
    pub open spec fn wf(self) -> bool {
        &&& self.index.backups@.len() == self.objects@.len()
        &&& distinct_names(self.index.backups@)
        &&& (self.encryption_key matches Some(k) ==> k@.len() > 0)
        &&& forall|i: int|
            0 <= i < self.objects@.len() ==> #[trigger] self.index.backups@[i].size
                == self.objects@[i]@.len()
    }

    /// A fresh bridge: empty catalog, no envelope layers configured.
    pub fn new() -> (r: Self)
        ensures
            r.wf(),
            r.index.backups@.len() == 0,
            r.objects@.len() == 0,
            r.compression == false,
            r.encryption_key is None,
    {
        Bridge {
            index: IndexFile::empty(),
            objects: Vec::new(),
            compression: false,
            encryption_key: None,
        }
    }

    /// Turn the compression layer on or off for subsequent writes.
    pub fn set_compression(&mut self, enable: bool)
        ensures
            final(self).compression == enable,
            final(self).index == old(self).index,
            final(self).objects == old(self).objects,
            final(self).encryption_key == old(self).encryption_key,
            old(self).wf() ==> final(self).wf(),
    {
        self.compression = enable;
    }

    /// Configure the encryption layer.  `None`, or a key with no bytes,
    /// turns encryption off; the later of several calls wins.
    pub fn set_encryption_key(&mut self, key: Option<String>)
        ensures
            final(self).index == old(self).index,
            final(self).objects == old(self).objects,
            final(self).compression == old(self).compression,
            match key {
                Some(s) => if vstd::utf8::encode_utf8(s@).len() > 0 {
                    final(self).encryption_key matches Some(k) && k@
                        == vstd::utf8::encode_utf8(s@)
                } else {
                    final(self).encryption_key is None
                },
                None => final(self).encryption_key is None,
            },
            old(self).wf() ==> final(self).wf(),
    {
        self.encryption_key = match key {
            Some(s) => {
                let bytes = s.as_str().as_bytes_vec();
                if bytes.len() == 0 {
                    None
                } else {
                    Some(bytes)
                }
            }
            None => None,
        };
    }

    /// Does the catalog already list a backup under this name?
    pub fn has_backup(&self, name: &String) -> (r: bool)
        ensures
            r == contains_name(self.index.backups@, name@),
    {
        match self.index.find_by_name(name) {
            Some(i) => {
                proof {
                    assert(self.index.backups@[i as int].directory_name@ == name@);
                }
                true
            }
            None => {
                proof {
                    assert(forall|j: int|
                        0 <= j < self.index.backups@.len()
                            ==> #[trigger] self.index.backups@[j].directory_name@ != name@);
                }
                false
            }
        }
    }

    /// Write one complete dump stream as a new backup: apply the envelope,
    /// store the result under the fresh name, and only then extend the
    /// catalog with a record whose flags are exactly the layers applied —
    /// `read` depends on that, so they are captured with the write itself.
    pub fn write(&mut self, data: &Vec<u8>, name: String, created_at: u64) -> (b: Backup)
        requires
            old(self).wf(),
            !contains_name(old(self).index.backups@, name@),
        ensures
            final(self).wf(),
            final(self).compression == old(self).compression,
            final(self).encryption_key == old(self).encryption_key,
            b.directory_name@ == name@,
            b.created_at == created_at,
            b.compressed == old(self).compression,
            b.encrypted == (old(self).encryption_key is Some),
            b.size == stored_spec(data@, b.compressed, key_view(old(self).encryption_key)).len(),
            final(self).index.backups@ == old(self).index.backups@.push(b),
            final(self).objects@.drop_last() == old(self).objects@,
            final(self).objects@.len() == old(self).objects@.len() + 1,
            final(self).objects@.last()@ == stored_spec(
                data@,
                b.compressed,
                key_view(old(self).encryption_key),
            ),
            recovered_spec(
                final(self).objects@.last()@,
                b.compressed,
                key_view(old(self).encryption_key),
            ) == data@,
    {
        let compressed = self.compression;
        let encrypted = match &self.encryption_key {
            Some(_) => true,
            None => false,
        };
        let stored = apply_envelope(data, compressed, &self.encryption_key);
        proof {
            crate::envelope::lemma_envelope_round_trip(
                data@,
                compressed,
                key_view(self.encryption_key),
            );
        }
        let size: u64 = stored.len() as u64;
        let backup = Backup {
            directory_name: name,
            size,
            created_at,
            compressed,
            encrypted,
        };
        let record = backup.clone();
        self.objects.push(stored);
        self.index.backups.push(backup);
        proof {
            let s = self.index.backups@;
            assert forall|i: int, j: int|
                0 <= i < j < s.len() implies #[trigger] s[i].directory_name@ != #[trigger] s[
                j
            ].directory_name@ by {
                if j == s.len() - 1 {
                    assert(s[i] == old(self).index.backups@[i]);
                }
            }
            assert(final(self).objects@.drop_last() =~= old(self).objects@);
        }
        record
    }

    /// Read a backup's original byte stream back: resolve the selector
    /// against the catalog, then reverse exactly the layers recorded on the
    /// chosen backup.  An empty catalog on `latest`, an unknown name, or a
    /// backup encrypted with no key configured each fail the run.
    pub fn read(&self, options: &ReadOptions) -> (r: Result<Vec<u8>, CoreError>)
        requires
            self.wf(),
        ensures
            match r {
                Ok(d) => exists|i: int|
                    {
                        &&& #[trigger] resolved_index(self.index.backups@, *options, i)
                        &&& (self.index.backups@[i].encrypted ==> self.encryption_key is Some)
                        &&& d@ == recovered_spec(
                            self.objects@[i]@,
                            self.index.backups@[i].compressed,
                            if self.index.backups@[i].encrypted {
                                key_view(self.encryption_key)
                            } else {
                                None
                            },
                        )
                    },
                Err(e) => {
                    ||| {
                        &&& e is NoBackupsAvailable
                        &&& *options is Latest
                        &&& self.index.backups@.len() == 0
                    }
                    ||| {
                        &&& e matches CoreError::BackupNotFound(n)
                        &&& *options matches ReadOptions::Backup { name } && n@ == name@
                        &&& !contains_name(self.index.backups@, n@)
                    }
                    ||| {
                        &&& e is MissingEncryptionKey
                        &&& self.encryption_key is None
                        &&& exists|i: int|
                            #[trigger] resolved_index(self.index.backups@, *options, i)
                                && self.index.backups@[i].encrypted
                    }
                },
            },
    {
        let idx = match self.index.resolve_read(options) {
            Ok(i) => i,
            Err(e) => {
                return Err(e);
            }
        };
        proof {
            assert(resolved_index(self.index.backups@, *options, idx as int));
        }
        let entry = &self.index.backups[idx];
        if entry.encrypted {
            match &self.encryption_key {
                Some(_) => {}
                None => {
                    return Err(CoreError::MissingEncryptionKey);
                }
            }
        }
        let no_key: Option<Vec<u8>> = None;
        let data = if entry.encrypted {
            open_envelope(&self.objects[idx], entry.compressed, &self.encryption_key)
        } else {
            open_envelope(&self.objects[idx], entry.compressed, &no_key)
        };
        proof {
            assert(resolved_index(self.index.backups@, *options, idx as int)
                && (self.index.backups@[idx as int].encrypted ==> self.encryption_key is Some)
                && data@ == recovered_spec(
                self.objects@[idx as int]@,
                self.index.backups@[idx as int].compressed,
                if self.index.backups@[idx as int].encrypted {
                    key_view(self.encryption_key)
                } else {
                    None
                },
            ));
        }
        Ok(data)
    }
}

/// The selector resolves to catalog index `i`: the newest entry for
/// `Latest`, the entry carrying the name for a lookup by name.
pub open spec fn resolved_index(s: Seq<Backup>, options: ReadOptions, i: int) -> bool {
    match options {
        ReadOptions::Latest => is_newest(s, i),
        ReadOptions::Backup { name } => 0 <= i < s.len() && s[i].directory_name@ == name@,
    }
}

/// The views of a chunked byte stream.
pub open spec fn chunk_views(chunks: Seq<Vec<u8>>) -> Seq<Seq<u8>> {
    chunks.map_values(|c: Vec<u8>| c@)
}

/// The whole stream carried by a sequence of chunks, in order.
pub open spec fn chunks_concat(chunks: Seq<Seq<u8>>) -> Seq<u8>
    decreases chunks.len(),
{
    if chunks.len() == 0 {
        Seq::empty()
    } else {
        chunks[0] + chunks_concat(chunks.skip(1))
    }
}

pub proof fn lemma_chunks_concat_push(chunks: Seq<Seq<u8>>, c: Seq<u8>)
    ensures
        chunks_concat(chunks.push(c)) == chunks_concat(chunks) + c,
    decreases chunks.len(),
{
    if chunks.len() == 0 {
        assert(chunks.push(c)[0] == c);
        assert(chunks.push(c).skip(1) =~= Seq::<Seq<u8>>::empty());
        assert(chunks_concat(chunks.push(c)) == c + chunks_concat(Seq::<Seq<u8>>::empty()));
        assert(c + chunks_concat(Seq::<Seq<u8>>::empty()) =~= c);
        assert(chunks_concat(chunks) + c =~= c);
    } else {
        assert(chunks.push(c)[0] == chunks[0]);
        assert(chunks.push(c).skip(1) =~= chunks.skip(1).push(c));
        lemma_chunks_concat_push(chunks.skip(1), c);
        assert(chunks_concat(chunks.push(c)) == chunks[0] + (chunks_concat(chunks.skip(1)) + c));
        assert(chunks[0] + (chunks_concat(chunks.skip(1)) + c) =~= (chunks[0] + chunks_concat(
            chunks.skip(1),
        )) + c);
    }
}

/// A full backup run: stream the source chunks into the bridge, reporting
/// progress after each chunk; on success the catalog has grown by exactly
/// the new record.  The instance is consumed: one run per task.
pub struct FullBackupTask {
    pub bridge: Bridge,
    pub chunks: Vec<Vec<u8>>,
    pub max_bytes: MaxBytes,
}

impl FullBackupTask {
    pub fn new(bridge: Bridge, chunks: Vec<Vec<u8>>, max_bytes: MaxBytes) -> (r: Self)
        ensures
            r.bridge == bridge,
            r.chunks == chunks,
            r.max_bytes == max_bytes,
    {
        FullBackupTask { bridge, chunks, max_bytes }
    }

    /// Run the transfer loop: pull each chunk in order, push it into the
    /// write buffer, and emit one progress event per chunk.  The events'
    /// transferred bytes are the running totals of the stream, so they are
    /// non-decreasing and end at the total size written.
    pub fn run(self, name: String, created_at: u64) -> (r: (Bridge, Backup, Vec<
        (TransferredBytes, MaxBytes),
    >))
        requires
            self.bridge.wf(),
            !contains_name(self.bridge.index.backups@, name@),
            chunks_concat(chunk_views(self.chunks@)).len() <= usize::MAX,
        ensures
            ({
                let (bridge, backup, events) = r;
                let stream = chunks_concat(chunk_views(self.chunks@));
                &&& bridge.wf()
                &&& backup.directory_name@ == name@
                &&& backup.created_at == created_at
                &&& backup.compressed == self.bridge.compression
                &&& backup.encrypted == (self.bridge.encryption_key is Some)
                &&& bridge.index.backups@ == self.bridge.index.backups@.push(backup)
                &&& bridge.objects@.last()@ == stored_spec(
                    stream,
                    backup.compressed,
                    key_view(self.bridge.encryption_key),
                )
                &&& recovered_spec(
                    bridge.objects@.last()@,
                    backup.compressed,
                    key_view(self.bridge.encryption_key),
                ) == stream
                &&& events@.len() == self.chunks@.len()
                &&& forall|i: int|
                    0 <= i < events@.len() ==> #[trigger] events@[i] == (
                        chunks_concat(chunk_views(self.chunks@).take(i + 1)).len() as usize,
                        self.max_bytes,
                    )
            }),
    {
        let FullBackupTask { mut bridge, chunks, max_bytes } = self;
        let ghost views = chunk_views(chunks@);
        let mut data: Vec<u8> = Vec::new();
        let mut events: Vec<(TransferredBytes, MaxBytes)> = Vec::new();
        let mut i: usize = 0;
        proof {
            assert(views.take(0) =~= Seq::<Seq<u8>>::empty());
        }
        while i < chunks.len()
            invariant
                i <= chunks.len(),
                views == chunk_views(chunks@),
                views.len() == chunks@.len(),
                data@ == chunks_concat(views.take(i as int)),
                chunks_concat(views).len() <= usize::MAX,
                events@.len() == i,
                forall|j: int|
                    0 <= j < i ==> #[trigger] events@[j] == (
                        chunks_concat(views.take(j + 1)).len() as usize,
                        max_bytes,
                    ),
            decreases chunks.len() - i,
        {
            let chunk = &chunks[i];
            let mut k: usize = 0;
            proof {
                lemma_chunks_concat_push(views.take(i as int), chunk@);
                assert(views.take(i + 1) =~= views.take(i as int).push(views[i as int]));
                lemma_chunks_prefix_len(views, i + 1);
            }
            while k < chunk.len()
                invariant
                    k <= chunk.len(),
                    data@ == chunks_concat(views.take(i as int)) + chunk@.take(k as int),
                    chunks_concat(views.take(i as int)).len() + chunk@.len() <= usize::MAX,
                decreases chunk.len() - k,
            {
                data.push(chunk[k]);
                proof {
                    assert(data@ =~= chunks_concat(views.take(i as int)) + chunk@.take(k + 1));
                }
                k = k + 1;
            }
            proof {
                assert(chunk@.take(chunk@.len() as int) =~= chunk@);
                assert(data@ == chunks_concat(views.take(i + 1)));
            }
            events.push((data.len(), max_bytes));
            i = i + 1;
        }
        proof {
            assert(views.take(views.len() as int) =~= views);
        }
        let backup = bridge.write(&data, name, created_at);
        (bridge, backup, events)
    }
}

/// The stream carried by a prefix of the chunks never exceeds the whole
/// stream in length.
pub proof fn lemma_chunks_prefix_len(chunks: Seq<Seq<u8>>, i: int)
    requires
        0 <= i <= chunks.len(),
    ensures
        chunks_concat(chunks.take(i)).len() <= chunks_concat(chunks).len(),
    decreases chunks.len() - i,
{
    if i < chunks.len() {
        lemma_chunks_concat_push(chunks.take(i), chunks[i]);
        assert(chunks.take(i + 1) =~= chunks.take(i).push(chunks[i]));
        lemma_chunks_prefix_len(chunks, i + 1);
    } else {
        assert(chunks.take(i) =~= chunks);
    }
}

/// Progress events whose transferred bytes are the running totals of a
/// chunked stream are non-decreasing, and the last one reports the whole
/// stream: what the presentation consumer observes only ever grows, and
/// ends at the total written.
pub proof fn lemma_progress_monotone(
    chunks: Seq<Seq<u8>>,
    events: Seq<(TransferredBytes, MaxBytes)>,
    max_bytes: MaxBytes,
)
    requires
        events.len() == chunks.len(),
        forall|i: int|
            0 <= i < events.len() ==> #[trigger] events[i] == (
                chunks_concat(chunks.take(i + 1)).len() as usize,
                max_bytes,
            ),
        chunks_concat(chunks).len() <= usize::MAX,
    ensures
        forall|i: int, j: int| 0 <= i <= j < events.len() ==> (#[trigger] events[i]).0 <= (
        #[trigger] events[j]).0,
        events.len() > 0 ==> events.last().0 == chunks_concat(chunks).len(),
{
    assert forall|i: int, j: int| 0 <= i <= j < events.len() implies (#[trigger] events[i]).0 <= (
    #[trigger] events[j]).0 by {
        lemma_chunks_take_monotone(chunks, i + 1, j + 1);
        lemma_chunks_prefix_len(chunks, j + 1);
    }
    if events.len() > 0 {
        assert(chunks.take(chunks.len() as int) =~= chunks);
    }
}

proof fn lemma_chunks_take_monotone(chunks: Seq<Seq<u8>>, i: int, j: int)
    requires
        0 <= i <= j <= chunks.len(),
    ensures
        chunks_concat(chunks.take(i)).len() <= chunks_concat(chunks.take(j)).len(),
    decreases j - i,
{
    if i < j {
        lemma_chunks_concat_push(chunks.take(i), chunks[i]);
        assert(chunks.take(i + 1) =~= chunks.take(i).push(chunks[i]));
        lemma_chunks_take_monotone(chunks, i + 1, j);
    }
}

/// A full restore run: resolve the requested backup, recover the original
/// byte stream, and hand it to the destination side.  The catalog is never
/// mutated by a restore.
pub struct FullRestoreTask {
    pub bridge: Bridge,
    pub options: ReadOptions,
}

impl FullRestoreTask {
    pub fn new(bridge: Bridge, options: ReadOptions) -> (r: Self)
        ensures
            r.bridge == bridge,
            r.options == options,
    {
        FullRestoreTask { bridge, options }
    }

    /// Run the restore: on success the recovered stream and its progress
    /// trail; on failure the first error, with the bridge — and so the
    /// catalog — returned unchanged in every case.
    pub fn run(self) -> (r: (Bridge, Result<(Vec<u8>, Vec<(TransferredBytes, MaxBytes)>), CoreError>))
        requires
            self.bridge.wf(),
        ensures
            r.0 == self.bridge,
            match r.1 {
                Ok(out) => {
                    &&& (exists|i: int|
                        {
                            &&& #[trigger] resolved_index(
                                self.bridge.index.backups@,
                                self.options,
                                i,
                            )
                            &&& out.0@ == recovered_spec(
                                self.bridge.objects@[i]@,
                                self.bridge.index.backups@[i].compressed,
                                if self.bridge.index.backups@[i].encrypted {
                                    key_view(self.bridge.encryption_key)
                                } else {
                                    None
                                },
                            )
                        })
                    &&& out.1@ == seq![
                        (out.0@.len() as usize, out.0@.len() as usize),
                    ]
                },
                Err(e) => {
                    ||| (e is NoBackupsAvailable && self.options is Latest
                        && self.bridge.index.backups@.len() == 0)
                    ||| (e matches CoreError::BackupNotFound(n) && (self.options
                        matches ReadOptions::Backup { name } && n@ == name@) && !contains_name(
                        self.bridge.index.backups@,
                        n@,
                    ))
                    ||| (e is MissingEncryptionKey && self.bridge.encryption_key is None)
                },
            },
    {
        let FullRestoreTask { bridge, options } = self;
        match bridge.read(&options) {
            Ok(data) => {
                let mut events: Vec<(TransferredBytes, MaxBytes)> = Vec::new();
                events.push((data.len(), data.len()));
                proof {
                    assert(events@ =~= seq![(data@.len() as usize, data@.len() as usize)]);
                }
                (bridge, Ok((data, events)))
            }
            Err(e) => (bridge, Err(e)),
        }
    }
}

} // verus!
