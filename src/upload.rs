//! The upload pipeline: a bounded ingest of one file's byte chunks, then
//! the derivation of the name the object is committed under.
use vstd::prelude::*;
use vstd::slice::slice_subrange;
use crate::resolve::is_leaf_name;
use crate::content_id::{
    content_identifier, identifier_of, lemma_identifier_shape, mobi_marker, png_magic, sha256,
    sha256_of, sniff, sniffed_extension,
};
use crate::naming::{
    choose_extension, chosen_extension, lemma_declared_extension_clean,
    lemma_declared_extension_of, opt_str_view, StoredName,
};

verus! {

/// Why an upload was refused.
#[derive(Debug, Clone, Copy, PartialEq, Eq, Structural)]
pub enum UploadError {
    /// The declared or the received size is over the limit.
    PayloadTooLarge,
    /// Neither the content nor the declared filename gives an extension.
    UnknownFileType,
}

/// How many leading bytes of the content signature sniffing looks at.
pub const SNIFF_WINDOW: usize = 8192;

/// The leading bytes of the content that sniffing inspects.
pub open spec fn sniff_window(data: Seq<u8>) -> Seq<u8> {
    if data.len() <= SNIFF_WINDOW {
        data
    } else {
        data.take(SNIFF_WINDOW as int)
    }
}

/// What an upload of `data`, declared under `filename`, is stored as: the
/// identifier and the extension, or the reason it is refused.
pub open spec fn upload_outcome(data: Seq<u8>, filename: Option<Seq<char>>) -> Result<
    (Seq<char>, Seq<char>),
    UploadError,
> {
    match chosen_extension(sniffed_extension(sniff_window(data)), filename) {
        Some(e) => Ok((identifier_of(sha256_of(data)), e)),
        None => Err(UploadError::UnknownFileType),
    }
}

/// Whether a stored name is the one `outcome` describes.
pub open spec fn name_matches(r: Result<StoredName, UploadError>, outcome: Result<(Seq<char>, Seq<char>), UploadError>) -> bool {
    match (r, outcome) {
        (Ok(n), Ok((id, ext))) => n.id@ == id && n.ext@ == ext,
        (Err(a), Err(b)) => a == b,
        _ => false,
    }
}

/// Early refusal on a declared content length over the limit.
pub fn check_declared_length(declared: Option<u64>, max_size: usize) -> (r: Result<(), UploadError>)
    ensures
        r is Err <==> (declared is Some && declared->0 > max_size),
        r is Err ==> r == Err::<(), UploadError>(UploadError::PayloadTooLarge),
{
    match declared {
        Some(n) => {
            if n > max_size as u64 {
                Err(UploadError::PayloadTooLarge)
            } else {
                Ok(())
            }
        },
        None => Ok(()),
    }
}

/// The name for content with digest `digest`, given the sniffed extension
/// and the declared filename.
pub fn name_from_parts(digest: &Vec<u8>, sniffed: Option<String>, filename: Option<&str>) -> (r:
    Result<StoredName, UploadError>)
    requires
        digest@.len() >= 3,
    ensures
        match chosen_extension(crate::naming::opt_string_view(sniffed), opt_str_view(filename)) {
            Some(e) => r is Ok && r->Ok_0.id@ == identifier_of(digest@) && r->Ok_0.ext@ == e,
            None => r == Err::<StoredName, UploadError>(UploadError::UnknownFileType),
        },
{
    match choose_extension(sniffed, filename) {
        Some(ext) => Ok(StoredName { id: content_identifier(digest), ext }),
        None => Err(UploadError::UnknownFileType),
    }
}

/// Identical content gets the identical identifier, whatever filenames the
/// two uploads declare.
pub proof fn law_identical_content_identical_identifier(
    a: Seq<u8>,
    b: Seq<u8>,
    fa: Option<Seq<char>>,
    fb: Option<Seq<char>>,
)
    requires
        a == b,
        upload_outcome(a, fa) is Ok,
        upload_outcome(b, fb) is Ok,
    ensures
        upload_outcome(a, fa)->Ok_0.0 == upload_outcome(b, fb)->Ok_0.0,
        upload_outcome(a, fa)->Ok_0.0 == identifier_of(sha256_of(a)),
{
}

/// An extension found by sniffing decides the stored extension, whatever
/// filename is declared.
pub proof fn law_sniffed_extension_wins(data: Seq<u8>, filename: Option<Seq<char>>)
    requires
        sniffed_extension(sniff_window(data)) is Some,
    ensures
        upload_outcome(data, filename) == Ok::<(Seq<char>, Seq<char>), UploadError>(
            (identifier_of(sha256_of(data)), sniffed_extension(sniff_window(data))->0),
        ),
{
}

/// Content that sniffing does not recognise is stored under the extension
/// of its declared filename, `.txt` for `{stem}.txt`; without a declared
/// filename it is refused as of unknown type.
pub proof fn law_declared_extension_fallback(data: Seq<u8>, stem: Seq<char>)
    requires
        sniffed_extension(sniff_window(data)) is None,
        stem.len() > 0,
        stem.last() != '/',
    ensures
        upload_outcome(data, Some(stem + seq!['.', 't', 'x', 't'])) == Ok::<
            (Seq<char>, Seq<char>),
            UploadError,
        >((identifier_of(sha256_of(data)), seq!['t', 'x', 't'])),
        upload_outcome(data, None) == Err::<(Seq<char>, Seq<char>), UploadError>(
            UploadError::UnknownFileType,
        ),
{
    let ext = seq!['t', 'x', 't'];
    lemma_declared_extension_of(stem, ext);
    assert(stem + seq!['.'] + ext =~= stem + seq!['.', 't', 'x', 't']);
}

/// One upload in progress: the bytes received so far, never more than the
/// limit it was opened with.
pub struct Ingest {
    max_size: usize,
    staged: Vec<u8>,
}

impl View for Ingest {
    type V = Seq<u8>;

    closed spec fn view(&self) -> Seq<u8> {
        self.staged@
    }
}

impl Ingest {
    /// The size limit of this upload.
    pub closed spec fn limit(&self) -> usize {
        self.max_size
    }

    /// The received bytes stay within the limit.
    pub closed spec fn wf(&self) -> bool {
        self.staged@.len() <= self.max_size
    }

    /// Opens an upload that accepts at most `max_size` bytes.
    pub fn new(max_size: usize) -> (r: Ingest)
        ensures
            r.wf(),
            r@ == Seq::<u8>::empty(),
            r.limit() == max_size,
    {
        Ingest { max_size, staged: Vec::new() }
    }

    /// Number of bytes received so far.
    pub fn total(&self) -> (r: usize)
        ensures
            r == self@.len(),
    {
        self.staged.len()
    }

    /// The bytes received so far.
    pub fn staged(&self) -> (r: &[u8])
        ensures
            r@ == self@,
    {
        self.staged.as_slice()
    }

    /// Takes the next chunk. A chunk that would bring the total over the
    /// limit is refused and leaves the upload as it was.
    pub fn push_chunk(&mut self, chunk: &[u8]) -> (r: Result<(), UploadError>)
        requires
            old(self).wf(),
        ensures
            final(self).wf(),
            final(self).limit() == old(self).limit(),
            old(self)@.len() + chunk@.len() > old(self).limit() ==> r == Err::<(), UploadError>(
                UploadError::PayloadTooLarge,
            ) && final(self)@ == old(self)@,
            old(self)@.len() + chunk@.len() <= old(self).limit() ==> r == Ok::<(), UploadError>(())
                && final(self)@ == old(self)@ + chunk@,
    {
        if chunk.len() > self.max_size - self.staged.len() {
            return Err(UploadError::PayloadTooLarge);
        }
        let ghost before = self.staged@;
        self.staged.extend_from_slice(chunk);
        assert(self.staged@ =~= before + chunk@);
        Ok(())
    }

    /// The name the received content is stored under, or why it cannot be.
    ///
    /// The name is always a leaf name, so the object is committed as a
    /// direct child of the storage root.
    pub fn finish(&self, filename: Option<&str>) -> (r: Result<StoredName, UploadError>)
        ensures
            name_matches(r, upload_outcome(self@, opt_str_view(filename))),
            png_magic(sniff_window(self@)) && !mobi_marker(sniff_window(self@)) ==> r is Ok
                && r->Ok_0.ext@ == seq!['p', 'n', 'g'],
            r is Ok ==> is_leaf_name(r->Ok_0.file_name_spec()),
    {
        let n = self.staged.len();
        let k = if n <= SNIFF_WINDOW { n } else { SNIFF_WINDOW };
        let window = slice_subrange(self.staged.as_slice(), 0, k);
        assert(window@ =~= sniff_window(self@));
        let sniffed = sniff(window);
        let digest = sha256(self.staged.as_slice());
        let ghost sniffed_view = crate::naming::opt_string_view(sniffed);
        let r = name_from_parts(&digest, sniffed, filename);
        proof {
            if r is Ok {
                let name = r->Ok_0;
                lemma_identifier_shape(digest@);
                if sniffed_view is None {
                    lemma_declared_extension_clean(opt_str_view(filename)->0);
                }
                let f = name.file_name_spec();
                assert forall|i: int| 0 <= i < f.len() implies f[i] != '/' by {
                    if i < name.id@.len() {
                        assert(f[i] == name.id@[i]);
                    } else if i > name.id@.len() {
                        assert(f[i] == name.ext@[i - name.id@.len() - 1]);
                    }
                }
                assert(f.len() >= 8);
            }
        }
        r
    }
}

} // verus!
