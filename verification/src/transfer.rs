//! The transfer pipeline: a size-bounded, atomically committed
//! upload path and the download path that streams a file back. An
//! upload accumulates chunks against a byte budget in a private
//! staging buffer; only a complete stream is persisted, the store
//! assigns the file id on insert, and the commit makes the bytes
//! visible under that id in one step. Every failure path leaves no
//! staged bytes, no committed object and no metadata row behind.

use crate::access::{download_allowed, public_download_allowed, FileService};
use crate::models::File;
use crate::repository::{
    file_id_taken, lemma_filter_out_one, max_file_id, FileRepository, PermissionRepository,
    StoreError,
};
use crate::text::{content_disposition, is_truthy_flag, parse_public_flag, sanitize_chars};
use vstd::prelude::*;

verus! {

/// Byte budget for one upload.
pub const MAX_UPLOAD_SIZE: u64 = 10 * 1024 * 1024;

/// Why an upload was refused.
#[derive(Debug, PartialEq, Eq, Structural)]
pub enum UploadError {
    /// The stream held no complete binary field.
    BadRequest,
    /// The stream ran past the byte budget.
    PayloadTooLarge,
    /// The store or the commit failed; every side effect was undone.
    Internal,
}

/// Metadata of a committed upload, echoed to the uploader.
#[derive(Debug)]
pub struct UploadResponse {
    pub file_id: u32,
    pub filename: String,
    pub size: u64,
    pub is_public: bool,
}

/// An object under this id is committed.
pub open spec fn object_key_taken(s: Seq<(u32, Vec<u8>)>, id: u32) -> bool {
    exists|i: int| 0 <= i < s.len() && s[i].0 == id
}

pub open spec fn unique_object_keys(s: Seq<(u32, Vec<u8>)>) -> bool {
    forall|i: int, j: int| 0 <= i < j < s.len() ==> s[i].0 != s[j].0
}

/// The committed side of the uploads directory: final objects keyed
/// by file id. A temporary buffer never lives here — it belongs to
/// its one upload session until the commit.
pub struct ObjectStore {
    objects: Vec<(u32, Vec<u8>)>,
}

impl View for ObjectStore {
    type V = Seq<(u32, Vec<u8>)>;

    closed spec fn view(&self) -> Seq<(u32, Vec<u8>)> {
        self.objects@
    }
}

impl ObjectStore {
    pub open spec fn wf(&self) -> bool {
        unique_object_keys(self@)
    }

    pub fn new() -> (r: ObjectStore)
        ensures
            r@ == Seq::<(u32, Vec<u8>)>::empty(),
            r.wf(),
    {
        ObjectStore { objects: Vec::new() }
    }

    pub fn count(&self) -> (r: usize)
        ensures
            r == self@.len(),
    {
        self.objects.len()
    }

    /// The atomic commit: the staged bytes become visible under the
    /// file id in one step, or not at all. An occupied id — the
    /// failed-rename case — changes nothing.
    pub fn commit(&mut self, file_id: u32, bytes: Vec<u8>) -> (r: Result<(), StoreError>)
        requires
            old(self).wf(),
        ensures
            final(self).wf(),
            r is Ok <==> !object_key_taken(old(self)@, file_id),
            r is Ok ==> final(self)@ == old(self)@.push((file_id, bytes)),
            r is Err ==> final(self)@ == old(self)@,
    {
        let n: usize = self.objects.len();
        let mut k: usize = 0;
        while k < n
            invariant
                k <= n,
                n == self@.len(),
                self@ == old(self)@,
                self.wf(),
                forall|j: int| 0 <= j < k ==> self@[j].0 != file_id,
            decreases n - k,
        {
            if self.objects[k].0 == file_id {
                return Err(StoreError::DuplicateKey);
            }
            k = k + 1;
        }
        self.objects.push((file_id, bytes));
        Ok(())
    }

    /// Reads the committed bytes under a file id.
    pub fn get(&self, file_id: u32) -> (r: Option<&Vec<u8>>)
        ensures
            match r {
                Some(b) => exists|i: int|
                    0 <= i < self@.len() && self@[i].0 == file_id && self@[i].1@ == b@,
                None => !object_key_taken(self@, file_id),
            },
    {
        let n: usize = self.objects.len();
        let mut k: usize = 0;
        while k < n
            invariant
                k <= n,
                n == self@.len(),
                forall|j: int| 0 <= j < k ==> self@[j].0 != file_id,
            decreases n - k,
        {
            if self.objects[k].0 == file_id {
                return Some(&self.objects[k].1);
            }
            k = k + 1;
        }
        None
    }
}

/// The byte total of a chunk stream.
pub open spec fn chunks_total(s: Seq<Vec<u8>>) -> int
    decreases s.len(),
{
    if s.len() == 0 {
        0
    } else {
        chunks_total(s.drop_last()) + s.last()@.len()
    }
}

/// The chunk stream joined back into one byte string.
pub open spec fn chunks_concat(s: Seq<Vec<u8>>) -> Seq<u8>
    decreases s.len(),
{
    if s.len() == 0 {
        Seq::empty()
    } else {
        chunks_concat(s.drop_last()) + s.last()@
    }
}

proof fn lemma_chunks_concat_len(s: Seq<Vec<u8>>)
    ensures
        chunks_concat(s).len() == chunks_total(s),
        0 <= chunks_total(s),
    decreases s.len(),
{
    if s.len() > 0 {
        lemma_chunks_concat_len(s.drop_last());
    }
}

/// The binary field of a multipart upload: the client's original
/// filename, if it sent one, and the byte stream, chunk by chunk.
pub struct FileField {
    pub filename: Option<String>,
    pub chunks: Vec<Vec<u8>>,
}

/// One upload request, reduced to the fields the pipeline reads: the
/// text of the public flag, if present, and the binary field, if
/// present.
pub struct UploadRequest {
    pub is_public_field: Option<String>,
    pub file_field: Option<FileField>,
}

impl UploadRequest {
    /// Whether the request marks the upload public: a missing flag
    /// field means private.
    pub open spec fn wants_public(&self) -> bool {
        match self.is_public_field {
            Some(t) => is_truthy_flag(t@),
            None => false,
        }
    }
}

/// The receiving state of one upload: the byte counter, the staged
/// bytes, and the fields gathered so far. Exceeding the budget
/// drops the staged bytes at once; they can never reach the store.
pub struct UploadSession {
    pub max_size: u64,
    pub is_public: bool,
    pub filename: Option<String>,
    pub received: u64,
    pub staged: Option<Vec<u8>>,
}

impl UploadSession {
    /// The staged bytes, `None` while no binary field has begun or
    /// after an abort.
    pub open spec fn staged_view(&self) -> Option<Seq<u8>> {
        match self.staged {
            Some(b) => Some(b@),
            None => None,
        }
    }

    /// The byte counter always matches the staged bytes and stays
    /// within the budget.
    pub open spec fn wf(&self) -> bool {
        match self.staged_view() {
            Some(b) => b.len() == self.received && self.received <= self.max_size,
            None => self.received == 0,
        }
    }

    pub fn new(max_size: u64) -> (r: UploadSession)
        ensures
            r.wf(),
            r.max_size == max_size,
            !r.is_public,
            r.filename is None,
            r.staged_view() is None,
            r.received == 0,
    {
        UploadSession { max_size, is_public: false, filename: None, received: 0, staged: None }
    }

    /// Consumes the public-flag text field.
    pub fn set_public_field(&mut self, text: &str)
        ensures
            final(self).is_public == is_truthy_flag(text@),
            final(self).max_size == old(self).max_size,
            final(self).filename == old(self).filename,
            final(self).received == old(self).received,
            final(self).staged_view() == old(self).staged_view(),
    {
        self.is_public = parse_public_flag(text);
    }

    /// Opens the binary field: notes the client's filename and
    /// stages an empty buffer (the fresh temporary file).
    pub fn begin_file(&mut self, filename: Option<String>)
        ensures
            final(self).wf(),
            final(self).max_size == old(self).max_size,
            final(self).is_public == old(self).is_public,
            final(self).filename == filename,
            final(self).received == 0,
            final(self).staged_view() == Some(Seq::<u8>::empty()),
    {
        self.filename = filename;
        self.staged = Some(Vec::new());
        self.received = 0;
    }

    /// Takes one chunk of the stream. The running byte counter is
    /// checked against the budget before the chunk is kept; the
    /// first chunk past it aborts the upload and discards the staged
    /// bytes immediately, so an oversized stream leaves nothing
    /// behind.
    pub fn append_chunk(&mut self, chunk: &[u8]) -> (r: Result<(), UploadError>)
        requires
            old(self).wf(),
            old(self).staged_view() is Some,
        ensures
            final(self).wf(),
            final(self).max_size == old(self).max_size,
            final(self).is_public == old(self).is_public,
            final(self).filename == old(self).filename,
            r is Ok <==> old(self).received + chunk@.len() <= old(self).max_size,
            r is Ok ==> final(self).received == old(self).received + chunk@.len() && final(self).staged_view() == Some(old(self).staged_view().unwrap() + chunk@),
            r is Err ==> r == Err::<(), UploadError>(UploadError::PayloadTooLarge) && final(self).staged_view() is None && final(self).received == 0,
    {
        let len: u64 = chunk.len() as u64;
        let new_total = match self.received.checked_add(len) {
            Some(t) => t,
            None => {
                self.staged = None;
                self.received = 0;
                return Err(UploadError::PayloadTooLarge);
            },
        };
        if new_total > self.max_size {
            self.staged = None;
            self.received = 0;
            return Err(UploadError::PayloadTooLarge);
        }
        let staged = match self.staged.as_mut() {
            Some(b) => b,
            None => {
                return Err(UploadError::Internal);
            },
        };
        let mut k: usize = 0;
        let n: usize = chunk.len();
        while k < n
            invariant
                k <= n,
                n == chunk@.len(),
                staged@ == old(self).staged_view().unwrap() + chunk@.subrange(0, k as int),
            decreases n - k,
        {
            staged.push(chunk[k]);
            proof {
                assert(staged@ =~= old(self).staged_view().unwrap() + chunk@.subrange(
                    0,
                    k as int + 1,
                ));
            }
            k = k + 1;
        }
        proof {
            assert(chunk@.subrange(0, n as int) =~= chunk@);
        }
        self.received = new_total;
        Ok(())
    }

    /// Closes the stream: a session that staged a complete binary
    /// field with a filename becomes a staged upload, ready to
    /// persist; anything less is a bad request, and nothing remains
    /// staged either way.
    pub fn finish(self) -> (r: Result<StagedUpload, UploadError>)
        requires
            self.wf(),
        ensures
            r is Ok <==> (self.staged_view() is Some && self.filename is Some),
            r matches Ok(st) ==> {
                &&& st.bytes@ == self.staged_view().unwrap()
                &&& self.filename matches Some(f) && st.filename@ == f@
                &&& st.is_public == self.is_public
                &&& st.bytes@.len() <= self.max_size
            },
            r is Err ==> r == Err::<StagedUpload, UploadError>(UploadError::BadRequest),
    {
        let bytes = match self.staged {
            Some(b) => b,
            None => {
                return Err(UploadError::BadRequest);
            },
        };
        let filename = match self.filename {
            Some(f) => f,
            None => {
                return Err(UploadError::BadRequest);
            },
        };
        Ok(StagedUpload { filename, bytes, is_public: self.is_public })
    }
}

/// A fully received upload, waiting for its metadata row and its
/// commit.
pub struct StagedUpload {
    pub filename: String,
    pub bytes: Vec<u8>,
    pub is_public: bool,
}

/// Persists and commits a staged upload. The metadata row is
/// inserted first — the store-assigned id from that insert is the
/// file's permanent id, so no id can be guessed before the insert —
/// and the bytes are then committed under it. If the commit fails,
/// the compensating delete removes the fresh row again: no metadata
/// row ever remains without its backing bytes.
pub fn persist_and_commit(
    staged: StagedUpload,
    files: &mut FileRepository,
    disk: &mut ObjectStore,
    owner_id: u32,
    uploaded_at: i64,
) -> (r: Result<UploadResponse, UploadError>)
    requires
        old(files).wf(),
        old(disk).wf(),
        staged.bytes@.len() <= u64::MAX,
    ensures
        final(files).wf(),
        final(disk).wf(),
        r is Ok <==> (max_file_id(old(files)@) < u32::MAX && !object_key_taken(
            old(disk)@,
            (max_file_id(old(files)@) + 1) as u32,
        )),
        r matches Ok(resp) ==> {
            &&& resp.file_id == max_file_id(old(files)@) + 1
            &&& !file_id_taken(old(files)@, resp.file_id)
            &&& resp.filename@ == staged.filename@
            &&& resp.size == staged.bytes@.len()
            &&& resp.is_public == staged.is_public
            &&& final(files)@.len() == old(files)@.len() + 1
            &&& final(files)@.drop_last() == old(files)@
            &&& final(files)@.last().id == resp.file_id
            &&& final(files)@.last().filename@ == staged.filename@
            &&& final(files)@.last().size == resp.size
            &&& final(files)@.last().owner_id == owner_id
            &&& final(files)@.last().is_public == staged.is_public
            &&& final(files)@.last().uploaded_at == uploaded_at
            &&& final(disk)@.len() == old(disk)@.len() + 1
            &&& final(disk)@.drop_last() == old(disk)@
            &&& final(disk)@.last().0 == resp.file_id
            &&& final(disk)@.last().1@ == staged.bytes@
        },
        r is Err ==> r == Err::<UploadResponse, UploadError>(UploadError::Internal) && final(files)@ == old(files)@ && final(disk)@ == old(disk)@,
{
    let size: u64 = staged.bytes.len() as u64;
    let filename_for_row = staged.filename.clone();
    let id = match files.insert_new(
        filename_for_row,
        size,
        owner_id,
        staged.is_public,
        uploaded_at,
    ) {
        Ok(id) => id,
        Err(_) => {
            return Err(UploadError::Internal);
        },
    };
    let ghost mid = files@;
    match disk.commit(id, staged.bytes) {
        Ok(()) => Ok(
            UploadResponse {
                file_id: id,
                filename: staged.filename,
                size,
                is_public: staged.is_public,
            },
        ),
        Err(_) => {
            proof {
                let pred = |f: File| f.id != id;
                assert(mid.last().id == id);
                assert forall|i: int| 0 <= i < mid.len() && i != mid.len() - 1 implies pred(
                    mid[i],
                ) by {
                    assert(mid[i] == old(files)@[i]);
                    assert(old(files)@[i].id != id);
                }
                lemma_filter_out_one(mid, pred, mid.len() - 1);
                assert(mid.remove(mid.len() - 1) =~= old(files)@);
            }
            files.remove(id);
            Err(UploadError::Internal)
        },
    }
}


proof fn lemma_chunks_prefix_step(s: Seq<Vec<u8>>, k: int)
    requires
        0 <= k < s.len(),
    ensures
        chunks_total(s.subrange(0, k + 1)) == chunks_total(s.subrange(0, k)) + s[k]@.len(),
        chunks_concat(s.subrange(0, k + 1)) == chunks_concat(s.subrange(0, k)) + s[k]@,
{
    assert(s.subrange(0, k + 1).drop_last() =~= s.subrange(0, k));
    assert(s.subrange(0, k + 1).last() == s[k]);
}

proof fn lemma_chunks_total_prefix_bound(s: Seq<Vec<u8>>, k: int)
    requires
        0 <= k <= s.len(),
    ensures
        chunks_total(s.subrange(0, k)) <= chunks_total(s),
    decreases s.len() - k,
{
    if k < s.len() {
        lemma_chunks_prefix_step(s, k);
        lemma_chunks_total_prefix_bound(s, k + 1);
    } else {
        assert(s.subrange(0, k) =~= s);
    }
}

/// Runs one upload through the whole pipeline against the in-memory
/// stores: gather fields, count bytes against the budget, persist,
/// commit. A stream over the budget is cut off at the first
/// offending chunk and — like every other failure — leaves the file
/// store and the object store exactly as they were: no temporary,
/// no final object, no metadata row.
pub fn process_upload(
    files: &mut FileRepository,
    disk: &mut ObjectStore,
    owner_id: u32,
    request: UploadRequest,
    uploaded_at: i64,
    max_size: u64,
) -> (r: Result<UploadResponse, UploadError>)
    requires
        old(files).wf(),
        old(disk).wf(),
    ensures
        final(files).wf(),
        final(disk).wf(),
        r is Err ==> final(files)@ == old(files)@ && final(disk)@ == old(disk)@,
        request.file_field is None ==> r == Err::<UploadResponse, UploadError>(
            UploadError::BadRequest,
        ),
        request.file_field matches Some(ff) ==> {
            &&& chunks_total(ff.chunks@) > max_size ==> r == Err::<UploadResponse, UploadError>(
                UploadError::PayloadTooLarge,
            )
            &&& (chunks_total(ff.chunks@) <= max_size && ff.filename is None) ==> r == Err::<
                UploadResponse,
                UploadError,
            >(UploadError::BadRequest)
            &&& (chunks_total(ff.chunks@) <= max_size && ff.filename is Some) ==> (r is Ok || r
                == Err::<UploadResponse, UploadError>(UploadError::Internal))
            &&& (chunks_total(ff.chunks@) <= max_size && ff.filename is Some && max_file_id(
                old(files)@,
            ) < u32::MAX && !object_key_taken(
                old(disk)@,
                (max_file_id(old(files)@) + 1) as u32,
            )) ==> r is Ok
            &&& r matches Ok(resp) ==> {
                &&& chunks_total(ff.chunks@) <= max_size
                &&& ff.filename is Some
                &&& resp.file_id == max_file_id(old(files)@) + 1
                &&& !file_id_taken(old(files)@, resp.file_id)
                &&& resp.filename@ == ff.filename.unwrap()@
                &&& resp.size == chunks_total(ff.chunks@)
                &&& resp.is_public == request.wants_public()
                &&& final(files)@.len() == old(files)@.len() + 1
                &&& final(files)@.drop_last() == old(files)@
                &&& final(files)@.last().id == resp.file_id
                &&& final(files)@.last().filename@ == resp.filename@
                &&& final(files)@.last().size == resp.size
                &&& final(files)@.last().owner_id == owner_id
                &&& final(files)@.last().is_public == resp.is_public
                &&& final(files)@.last().uploaded_at == uploaded_at
                &&& final(disk)@.len() == old(disk)@.len() + 1
                &&& final(disk)@.drop_last() == old(disk)@
                &&& final(disk)@.last().0 == resp.file_id
                &&& final(disk)@.last().1@ == chunks_concat(ff.chunks@)
            }
        },
{
    let UploadRequest { is_public_field, file_field } = request;
    let mut session = UploadSession::new(max_size);
    match &is_public_field {
        Some(text) => session.set_public_field(text.as_str()),
        None => {},
    }
    let ff = match file_field {
        Some(f) => f,
        None => {
            return Err(UploadError::BadRequest);
        },
    };
    session.begin_file(ff.filename);
    let n: usize = ff.chunks.len();
    let mut k: usize = 0;
    while k < n
        invariant
            k <= n,
            n == ff.chunks@.len(),
            request.file_field matches Some(f) && f.chunks == ff.chunks && f.filename
                == ff.filename,
            request.is_public_field == is_public_field,
            files.wf(),
            disk.wf(),
            files@ == old(files)@,
            disk@ == old(disk)@,
            session.wf(),
            session.max_size == max_size,
            session.staged_view() == Some(chunks_concat(ff.chunks@.subrange(0, k as int))),
            session.received == chunks_total(ff.chunks@.subrange(0, k as int)),
            session.filename == ff.filename,
            session.is_public == (match is_public_field {
                Some(t) => is_truthy_flag(t@),
                None => false,
            }),
        decreases n - k,
    {
        proof {
            lemma_chunks_prefix_step(ff.chunks@, k as int);
        }
        let chunk = &ff.chunks[k];
        match session.append_chunk(chunk.as_slice()) {
            Ok(()) => {},
            Err(_) => {
                proof {
                    lemma_chunks_total_prefix_bound(ff.chunks@, k as int + 1);
                }
                return Err(UploadError::PayloadTooLarge);
            },
        }
        k = k + 1;
    }
    proof {
        assert(ff.chunks@.subrange(0, n as int) =~= ff.chunks@);
        lemma_chunks_concat_len(ff.chunks@);
    }
    let staged = match session.finish() {
        Ok(st) => st,
        Err(_) => {
            return Err(UploadError::BadRequest);
        },
    };
    persist_and_commit(staged, files, disk, owner_id, uploaded_at)
}

/// A resolved download: the stored filename, the header value that
/// carries it, and the file's bytes.
pub struct DownloadReply {
    pub filename: String,
    pub content_disposition: String,
    pub bytes: Vec<u8>,
}

/// Resolves an authenticated download end to end: the access rule
/// first, then the object store. Metadata without backing bytes is
/// reported as absent, the defensive-consistency rule; and every
/// refusal, whatever its cause, is the same `None`.
pub fn download_file(
    files: &FileRepository,
    permissions: &PermissionRepository,
    disk: &ObjectStore,
    user_id: u32,
    file_id: u32,
) -> (r: Option<DownloadReply>)
    requires
        files.wf(),
        permissions.wf(),
        disk.wf(),
    ensures
        r is Some <==> (download_allowed(files@, permissions@, user_id, file_id)
            && object_key_taken(disk@, file_id)),
        r matches Some(d) ==> {
            &&& exists|i: int|
                0 <= i < files@.len() && files@[i].id == file_id && files@[i].filename@
                    == d.filename@
            &&& exists|j: int|
                0 <= j < disk@.len() && disk@[j].0 == file_id && disk@[j].1@ == d.bytes@
            &&& d.content_disposition@ == "attachment; filename=\""@ + sanitize_chars(
                d.filename@,
            ) + "\""@
        },
{
    let service = FileService::new(files, permissions);
    let file = match service.get_for_download(user_id, file_id) {
        Some(f) => f,
        None => {
            return None;
        },
    };
    let bytes = match disk.get(file_id) {
        Some(b) => b,
        None => {
            return None;
        },
    };
    let header = content_disposition(file.filename.as_str());
    proof {
        let i = choose|i: int| 0 <= i < files@.len() && files@[i] == *file;
        assert(files@[i].id == file_id && files@[i].filename@ == file.filename@);
    }
    Some(
        DownloadReply {
            filename: file.filename.clone(),
            content_disposition: header,
            bytes: vstd::slice::slice_to_vec(bytes.as_slice()),
        },
    )
}

/// Resolves a public download: no identity, the public flag alone,
/// the permission table never consulted. Absent and private files
/// are one and the same `None`.
pub fn download_public(
    files: &FileRepository,
    disk: &ObjectStore,
    file_id: u32,
) -> (r: Option<DownloadReply>)
    requires
        files.wf(),
        disk.wf(),
    ensures
        r is Some <==> (public_download_allowed(files@, file_id) && object_key_taken(
            disk@,
            file_id,
        )),
        r matches Some(d) ==> {
            &&& exists|i: int|
                0 <= i < files@.len() && files@[i].id == file_id && files@[i].filename@
                    == d.filename@ && files@[i].is_public
            &&& exists|j: int|
                0 <= j < disk@.len() && disk@[j].0 == file_id && disk@[j].1@ == d.bytes@
            &&& d.content_disposition@ == "attachment; filename=\""@ + sanitize_chars(
                d.filename@,
            ) + "\""@
        },
{
    let file = match files.find_by_id(file_id) {
        Some(f) => f,
        None => {
            return None;
        },
    };
    proof {
        crate::access::lemma_unique_file_record(files@, file_id);
    }
    if !file.is_public {
        return None;
    }
    let bytes = match disk.get(file_id) {
        Some(b) => b,
        None => {
            return None;
        },
    };
    let header = content_disposition(file.filename.as_str());
    proof {
        let i = choose|i: int| 0 <= i < files@.len() && files@[i] == *file;
        assert(files@[i].id == file_id && files@[i].filename@ == file.filename@
            && files@[i].is_public);
    }
    Some(
        DownloadReply {
            filename: file.filename.clone(),
            content_disposition: header,
            bytes: vstd::slice::slice_to_vec(bytes.as_slice()),
        },
    )
}

} // verus!
