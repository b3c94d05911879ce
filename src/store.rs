use vstd::prelude::*;

use sha2::Digest;

use crate::table::Table;
use crate::table;

verus! {

/// The error of `lz4_flex`'s block decompression, mapped to `StoreError`.
#[verifier::external_type_specification]
#[verifier::external_body]
pub struct ExDecompressError(lz4_flex::block::DecompressError);

/// The LZ4 block, with the input length in front, that `compress_prepend_size` makes of `b`.
pub uninterp spec fn lz4_block_of(b: Seq<u8>) -> Seq<u8>;

/// The bytes that `decompress_size_prepended` restores from `c`, or `None` when it fails.
pub uninterp spec fn lz4_restored(c: Seq<u8>) -> Option<Seq<u8>>;

/// The SHA-256 digest of `b` in lower-case hexadecimal.
pub uninterp spec fn sha256_hex(b: Seq<u8>) -> Seq<char>;

/// Relies on `lz4_flex::compress_prepend_size`: the output depends on the
/// input alone, and `decompress_size_prepended` restores the input from it;
/// the length prefix is four bytes, hence the bound.
#[verifier::external_body]
fn lz4_compress(b: &[u8]) -> (r: Vec<u8>)
    requires
        b@.len() <= u32::MAX,
    ensures
        r@ == lz4_block_of(b@),
        lz4_restored(r@) == Some(b@),
{
    lz4_flex::compress_prepend_size(b)
}

/// Relies on `lz4_flex::decompress_size_prepended`: the outcome depends
/// on the input alone. Only blocks that `compress_prepend_size` made are
/// handed to it: on crafted input its length decoding can overflow.
#[verifier::external_body]
fn lz4_decompress(c: &[u8]) -> (r: Result<Vec<u8>, lz4_flex::block::DecompressError>)
    requires
        exists|b: Seq<u8>| b.len() <= u32::MAX && #[trigger] lz4_block_of(b) == c@,
    ensures
        match r {
            Ok(v) => lz4_restored(c@) == Some(v@),
            Err(_) => lz4_restored(c@) is None,
        },
{
    lz4_flex::decompress_size_prepended(c)
}

/// A lower-case hexadecimal digit.
pub open spec fn lower_hex_digit(c: char) -> bool {
    ('0' <= c && c <= '9') || ('a' <= c && c <= 'f')
}

/// Relies on `sha2::Sha256::digest` printed with `{:x}`: a function of the
/// bytes alone; the 32 bytes of the digest give two lower-case hexadecimal
/// digits each.
#[verifier::external_body]
fn sha256_fingerprint(b: &[u8]) -> (r: String)
    ensures
        r@ == sha256_hex(b@),
        r@.len() == 64,
        forall|i: int| 0 <= i < 64 ==> lower_hex_digit(#[trigger] r@[i]),
{
    format!("{:x}", sha2::Sha256::digest(b))
}

/// Relies on `String::from_utf8`: it succeeds exactly on valid UTF-8, and
/// the string then holds the decoded characters.
#[verifier::external_body]
fn utf8_string(v: Vec<u8>) -> (r: Option<String>)
    ensures
        r is Some <==> vstd::utf8::valid_utf8(v@),
        r matches Some(s) ==> s@ == vstd::utf8::decode_utf8(v@),
{
    String::from_utf8(v).ok()
}

/// Errors of the document store.
#[derive(Debug, Clone, Copy, PartialEq, Eq, Structural)]
pub enum StoreError {
    /// The compressed bytes do not restore to UTF-8 text.
    CorruptPayload,
}

/// A document's text as held by the store: compressed, with the length of
/// its UTF-8 bytes and their fingerprint. Only `compress_document` makes
/// one, so the payload is always a block that LZ4 restores.
pub struct Document {
    compressed: Vec<u8>,
    uncompressed_size: usize,
    fingerprint: String,
}

impl Document {
    /// The compressed bytes.
    pub closed spec fn payload(&self) -> Seq<u8> {
        self.compressed@
    }

    /// The length of the text's UTF-8 bytes.
    pub closed spec fn text_size(&self) -> nat {
        self.uncompressed_size as nat
    }

    /// The fingerprint of the text.
    pub closed spec fn fingerprint_view(&self) -> Seq<char> {
        self.fingerprint@
    }

    /// The payload is what LZ4 made of some text short enough for its
    /// length prefix.
    #[verifier::type_invariant]
    spec fn made_by_compression(&self) -> bool {
        exists|b: Seq<u8>| b.len() <= u32::MAX && #[trigger] lz4_block_of(b) == self.compressed@
    }

    /// The compressed bytes.
    pub fn compressed(&self) -> (r: &Vec<u8>)
        ensures
            r@ == self.payload(),
    {
        &self.compressed
    }

    /// The length of the text's UTF-8 bytes.
    pub fn uncompressed_size(&self) -> (r: usize)
        ensures
            r == self.text_size(),
    {
        self.uncompressed_size
    }

    /// The fingerprint of the text: its SHA-256 digest in hexadecimal.
    pub fn fingerprint(&self) -> (r: &String)
        ensures
            r@ == self.fingerprint_view(),
    {
        &self.fingerprint
    }
}

/// The document that the store holds for `text`.
pub open spec fn stored_for(d: Document, text: Seq<char>) -> bool {
    &&& d.payload() == lz4_block_of(vstd::utf8::encode_utf8(text))
    &&& lz4_restored(d.payload()) == Some(vstd::utf8::encode_utf8(text))
    &&& d.text_size() == vstd::utf8::encode_utf8(text).len()
    &&& d.fingerprint_view() == sha256_hex(vstd::utf8::encode_utf8(text))
    &&& d.fingerprint_view().len() == 64
    &&& forall|i: int| 0 <= i < 64 ==> lower_hex_digit(#[trigger] d.fingerprint_view()[i])
}

/// Compresses `content` and computes its fingerprint.
pub fn compress_document(content: &str) -> (r: Document)
    requires
        vstd::utf8::encode_utf8(content@).len() <= u32::MAX,
    ensures
        stored_for(r, content@),
{
    let bytes = content.as_bytes();
    let compressed = lz4_compress(bytes);
    let fingerprint = sha256_fingerprint(bytes);
    assert(lz4_block_of(bytes@) == compressed@);
    Document { compressed, uncompressed_size: bytes.len(), fingerprint }
}

/// What decompressing the payload `c` gives.
pub open spec fn restored_text(c: Seq<u8>) -> Result<Seq<char>, StoreError> {
    match lz4_restored(c) {
        Some(b) => if vstd::utf8::valid_utf8(b) {
            Ok(vstd::utf8::decode_utf8(b))
        } else {
            Err(StoreError::CorruptPayload)
        },
        None => Err(StoreError::CorruptPayload),
    }
}

/// Restores the text of a document; fails with `CorruptPayload` when the
/// bytes are not an LZ4 block or not UTF-8.
pub fn decompress_document(doc: &Document) -> (r: Result<String, StoreError>)
    ensures
        match r {
            Ok(s) => restored_text(doc.payload()) == Ok::<Seq<char>, StoreError>(s@),
            Err(e) => restored_text(doc.payload()) == Err::<Seq<char>, StoreError>(e),
        },
{
    proof {
        use_type_invariant(doc);
    }
    match lz4_decompress(doc.compressed.as_slice()) {
        Ok(bytes) => match utf8_string(bytes) {
            Some(s) => Ok(s),
            None => Err(StoreError::CorruptPayload),
        },
        Err(_) => Err(StoreError::CorruptPayload),
    }
}

/// Equal texts are stored alike: the same fingerprint and the same payload.
pub proof fn lemma_fingerprint_deterministic(d1: Document, d2: Document, t1: Seq<char>, t2: Seq<char>)
    requires
        stored_for(d1, t1),
        stored_for(d2, t2),
        t1 == t2,
    ensures
        d1.fingerprint_view() == d2.fingerprint_view(),
        d1.payload() == d2.payload(),
{
}

/// Decompressing what `compress_document` made of a text gives the text back.
pub proof fn lemma_round_trip(text: Seq<char>, d: Document)
    requires
        stored_for(d, text),
    ensures
        restored_text(d.payload()) == Ok::<Seq<char>, StoreError>(text),
{
    broadcast use vstd::utf8::encode_utf8_valid_utf8, vstd::utf8::encode_utf8_decode_utf8;

}

/// Total size of the compressed payloads of the entries `s`.
pub open spec fn payload_sum(s: Seq<(String, Document)>) -> int
    decreases s.len(),
{
    if s.len() == 0 {
        0
    } else {
        payload_sum(s.drop_last()) + s.last().1.payload().len()
    }
}

proof fn lemma_payload_sum_remove(s: Seq<(String, Document)>, i: int)
    requires
        0 <= i < s.len(),
    ensures
        payload_sum(s.remove(i)) == payload_sum(s) - s[i].1.payload().len(),
    decreases s.len(),
{
    if i < s.len() - 1 {
        let t = s.drop_last();
        lemma_payload_sum_remove(t, i);
        assert(s.remove(i).drop_last() =~= t.remove(i));
        assert(s.remove(i).last() == s.last());
    } else {
        assert(s.remove(i) =~= s.drop_last());
    }
}

proof fn lemma_payload_sum_bound(s: Seq<(String, Document)>)
    requires
        forall|i: int| 0 <= i < s.len() ==> (#[trigger] s[i]).1.payload().len() <= usize::MAX,
    ensures
        0 <= payload_sum(s) <= s.len() * usize::MAX,
    decreases s.len(),
{
    if s.len() > 0 {
        let t = s.drop_last();
        assert forall|i: int| 0 <= i < t.len() implies (#[trigger] t[i]).1.payload().len()
            <= usize::MAX by {
            assert(t[i] == s[i]);
        }
        lemma_payload_sum_bound(t);
        assert(s[s.len() - 1] == s.last());
        assert(t.len() * usize::MAX + usize::MAX == s.len() * usize::MAX) by (nonlinear_arith)
            requires
                t.len() + 1 == s.len(),
        ;
    }
}

/// The open documents, each under its identity, compressed.
pub struct DocumentStore {
    docs: Table<Document>,
    memory: u128,
}

impl DocumentStore {
    /// The entries, in the order they were stored.
    pub closed spec fn entries(&self) -> Seq<(String, Document)> {
        self.docs.seq()
    }

    /// The document under each identity.
    pub closed spec fn documents(&self) -> Map<Seq<char>, Document> {
        self.docs.map()
    }

    /// The value of the memory counter.
    pub closed spec fn memory(&self) -> int {
        self.memory as int
    }

    /// One entry per identity, the documents are those of the entries, and
    /// the memory counter is the total size of their compressed payloads.
    pub open spec fn wf(&self) -> bool {
        &&& table::keys_unique(self.entries())
        &&& self.documents() == table::map_of(self.entries())
        &&& self.memory() == payload_sum(self.entries())
        &&& forall|i: int|
            0 <= i < self.entries().len() ==> (#[trigger] self.entries()[i]).1.payload().len()
                <= usize::MAX
    }

    /// An empty store.
    pub fn new() -> (r: Self)
        ensures
            r.wf(),
            r.documents() == Map::<Seq<char>, Document>::empty(),
            r.memory() == 0,
    {
        DocumentStore { docs: Table::new(), memory: 0 }
    }

    /// Number of open documents.
    pub fn len(&self) -> (r: usize)
        requires
            self.wf(),
        ensures
            r == self.documents().len(),
    {
        proof {
            assert(self.docs.seq().len() == self.docs.map().len()) by {
                lemma_map_len(self.docs.seq());
            }
        }
        self.docs.len()
    }

    /// Total size in bytes of the compressed payloads held.
    pub fn memory_usage(&self) -> (r: u128)
        ensures
            r == self.memory(),
    {
        self.memory
    }

    /// The document under `id`, still compressed.
    pub fn get(&self, id: &str) -> (r: Option<&Document>)
        requires
            self.wf(),
        ensures
            match r {
                Some(d) => self.documents().contains_key(id@) && self.documents()[id@] == *d,
                None => !self.documents().contains_key(id@),
            },
    {
        self.docs.get(id)
    }

    /// Removes the document under `id` and returns the size of its payload;
    /// zero when there is none.
    pub fn remove(&mut self, id: &str) -> (freed: usize)
        requires
            old(self).wf(),
        ensures
            final(self).wf(),
            final(self).documents() == old(self).documents().remove(id@),
            freed == (if old(self).documents().contains_key(id@) {
                old(self).documents()[id@].payload().len()
            } else {
                0
            }),
            final(self).memory() == old(self).memory() - freed,
    {
        match self.docs.find(id) {
            Some(i) => {
                let ghost s = self.docs.seq();
                let (_, doc) = self.docs.remove_at(i);
                let freed = doc.compressed().len();
                proof {
                    lemma_payload_sum_remove(s, i as int);
                    lemma_payload_sum_bound(self.docs.seq());
                    assert forall|j: int| 0 <= j < self.docs.seq().len() implies (#[trigger] self.docs.seq()[j]).1.payload().len() <= usize::MAX by {
                        let j2 = if j < i { j } else { j + 1 };
                        assert(self.docs.seq()[j] == s[j2]);
                    }
                }
                self.memory = self.memory - freed as u128;
                freed
            },
            None => {
                proof {
                    assert(self.docs.map().remove(id@) =~= self.docs.map());
                }
                0
            },
        }
    }

    /// Stores `text` under `id`, compressed, in place of what was there.
    pub fn put(&mut self, id: String, text: &str)
        requires
            old(self).wf(),
            vstd::utf8::encode_utf8(text@).len() <= u32::MAX,
        ensures
            final(self).wf(),
            final(self).documents().dom() == old(self).documents().dom().insert(id@),
            stored_for(final(self).documents()[id@], text@),
            forall|k: Seq<char>|
                k != id@ && old(self).documents().contains_key(k) ==> final(self).documents()[k]
                    == old(self).documents()[k],
            final(self).memory() == old(self).memory() - (if old(self).documents().contains_key(
                id@,
            ) {
                old(self).documents()[id@].payload().len() as int
            } else {
                0
            }) + final(self).documents()[id@].payload().len(),
    {
        let _freed = self.remove(id.as_str());
        let doc = compress_document(text);
        let size = doc.compressed().len();
        let n = self.docs.len();
        let ghost s = self.docs.seq();
        proof {
            lemma_payload_sum_bound(s);
            assert(n * usize::MAX + usize::MAX <= u128::MAX) by (nonlinear_arith)
                requires
                    n <= usize::MAX,
                    usize::MAX <= 0xffff_ffff_ffff_ffff as int,
            ;
        }
        self.memory = self.memory + size as u128;
        let ghost d = doc;
        self.docs.push_new(id, doc);
        proof {
            assert(self.docs.seq().drop_last() =~= s);
            assert(self.docs.seq().last() == (id, d));
            assert forall|j: int| 0 <= j < self.docs.seq().len() implies (#[trigger] self.docs.seq()[j]).1.payload().len() <= usize::MAX by {
                if j < s.len() {
                    assert(self.docs.seq()[j] == s[j]);
                }
            }
            assert(self.docs.map().dom() =~= old(self).documents().dom().insert(id@));
        }
    }

    /// Removes every document and resets the counter.
    pub fn clear(&mut self)
        ensures
            final(self).wf(),
            final(self).documents() == Map::<Seq<char>, Document>::empty(),
            final(self).memory() == 0,
    {
        self.docs.clear();
        self.memory = 0;
    }
}

/// With unique keys, a map of entries has one key per entry.
proof fn lemma_map_len(s: Seq<(String, Document)>)
    requires
        table::keys_unique(s),
    ensures
        table::map_of(s).len() == s.len(),
        table::map_of(s).dom().finite(),
    decreases s.len(),
{
    if s.len() > 0 {
        let t = s.drop_last();
        assert(table::keys_unique(t));
        lemma_map_len(t);
        table::lemma_map_of_index(t, s.last().0@);
        assert forall|i: int| 0 <= i < t.len() implies t[i].0@ != s.last().0@ by {
            assert(t[i] == s[i]);
        }
    }
}

} // verus!
