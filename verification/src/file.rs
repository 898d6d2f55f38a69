//! What an upload sends for one file: the properties of its folder and the
//! documents that hold its base64 text, at most `MAX_DOC_LENGTH` characters
//! each.

use vstd::prelude::*;
use crate::codec::{
    base64_decoded, base64_encode, base64_len, base64_standard, lemma_base64_roundtrip,
    lemma_base64_shape, md5_compute, md5_digest,
};
use crate::gapi::Properties;
use crate::text::{
    decimal, decimal_string, decimal_value, hex_bytes, hex_lower, hex_lower_string,
    lemma_decimal_roundtrip, lemma_hex_roundtrip,
};

verus! {

/// Most characters that one document holds.
pub const MAX_DOC_LENGTH: usize = 1000000;

/// One document of an upload: its name (`order`) and its text.
#[derive(Debug)]
pub struct DocumentChunk {
    pub order: String,
    pub content: String,
}

/// Everything that an upload of one file sends.
#[derive(Debug)]
pub struct UploadPlan {
    pub properties: Properties,
    pub chunks: Vec<DocumentChunk>,
}

/// Number of documents for a text of `n` characters.
pub open spec fn chunk_count(n: nat) -> nat {
    ((n + MAX_DOC_LENGTH - 1) / MAX_DOC_LENGTH as int) as nat
}

/// End of the `k`-th document within a text of `n` characters.
pub open spec fn chunk_end(n: nat, k: int) -> int {
    if (k + 1) * MAX_DOC_LENGTH <= n {
        (k + 1) * MAX_DOC_LENGTH
    } else {
        n as int
    }
}

/// Text of the `k`-th document of `text`.
pub open spec fn chunk_text(text: Seq<char>, k: int) -> Seq<char> {
    text.subrange(k * MAX_DOC_LENGTH, chunk_end(text.len(), k))
}

/// Name of the `k`-th document: the offset that follows its slot, in decimal.
pub open spec fn chunk_order(k: int) -> Seq<char> {
    decimal(((k + 1) * MAX_DOC_LENGTH) as nat)
}

/// Whether `chunks` are the documents of `text`, in order.
pub open spec fn chunks_of(chunks: Seq<DocumentChunk>, text: Seq<char>) -> bool {
    &&& chunks.len() == chunk_count(text.len())
    &&& forall|k: int|
        0 <= k < chunks.len() ==> (#[trigger] chunks[k]).content@ == chunk_text(text, k)
            && chunks[k].order@ == chunk_order(k)
}

/// The plan for uploading a file whose bytes are `content`: its size (and,
/// as `encoded_size`, the size times `4 / 3` in integer arithmetic, which is
/// the size itself), the hexadecimal MD5 digest, and the documents of the
/// base64 text. The base64 text has to fit in memory, hence `requires`.
pub fn plan_upload(content: &[u8]) -> (plan: UploadPlan)
    requires
        base64_len(content@.len()) <= isize::MAX,
    ensures
        plan.properties.size@ == decimal(content@.len()),
        plan.properties.encoded_size@ == decimal(content@.len() * (4nat / 3nat)),
        plan.properties.encoded_size@ == plan.properties.size@,
        plan.properties.md5@ == hex_lower(md5_digest(content@)),
        plan.properties.md5@.len() == 32,
        chunks_of(plan.chunks@, base64_standard(content@)),
        plan.chunks@.len() == chunk_count(base64_len(content@.len())),
{
    let size: usize = content.len();
    let digest = md5_compute(content);
    let md5_hash = hex_lower_string(digest.as_slice());
    proof {
        lemma_hex_roundtrip(md5_digest(content@));
    }
    let encoded_size: usize = size * (4 / 3);
    let properties = Properties {
        size: decimal_string(size),
        encoded_size: decimal_string(encoded_size),
        md5: md5_hash,
    };
    let b64 = base64_encode(content);
    proof {
        lemma_base64_shape(content@);
    }
    let chunks = split_documents(b64.as_str());
    UploadPlan { properties, chunks }
}

/// Splits an ASCII text into documents of `MAX_DOC_LENGTH` characters, the
/// last one shorter when the length is not a multiple of it.
pub fn split_documents(text: &str) -> (chunks: Vec<DocumentChunk>)
    requires
        vstd::string::is_ascii(text),
        text@.len() <= isize::MAX,
    ensures
        chunks_of(chunks@, text@),
{
    let len: usize = text.unicode_len();
    let mut chunks: Vec<DocumentChunk> = Vec::new();
    let mut i: usize = 0;
    while i < len
        invariant
            len == text@.len(),
            len <= isize::MAX,
            vstd::string::is_ascii(text),
            i == chunks@.len() * MAX_DOC_LENGTH,
            i < len + MAX_DOC_LENGTH,
            forall|k: int|
                0 <= k < chunks@.len() ==> (#[trigger] chunks@[k]).content@ == chunk_text(text@, k)
                    && chunks@[k].order@ == chunk_order(k),
        decreases len + MAX_DOC_LENGTH - i,
    {
        let j: usize = i;
        i = i + MAX_DOC_LENGTH;
        let slice = if i > len {
            text.substring_ascii(j, len)
        } else {
            text.substring_ascii(j, i)
        };
        let ghost k = chunks@.len() as int;
        let chunk = DocumentChunk { order: decimal_string(i), content: slice.to_owned() };
        assert(chunk.content@ == chunk_text(text@, k));
        chunks.push(chunk);
    }
    chunks
}

/// The documents of a text, put back together in order, give the text, and
/// no document holds more than `MAX_DOC_LENGTH` characters or is empty.
pub proof fn lemma_documents_reassemble(chunks: Seq<DocumentChunk>, text: Seq<char>)
    requires
        chunks_of(chunks, text),
    ensures
        chunks.map_values(|c: DocumentChunk| c.content@).flatten() == text,
        forall|k: int|
            0 <= k < chunks.len() ==> 0 < (#[trigger] chunks[k]).content@.len() <= MAX_DOC_LENGTH,
{
    let views = chunks.map_values(|c: DocumentChunk| c.content@);
    assert forall|m: int| 0 <= m <= chunks.len() implies #[trigger] views.take(m).flatten()
        == text.take(chunk_end(text.len(), m - 1)) by {
        lemma_prefix_flatten(chunks, text, m);
    }
    assert(views.take(chunks.len() as int) =~= views);
    assert(text.take(text.len() as int) =~= text);
}

/// An upload can be recovered: the documents of a file, put back together
/// and decoded from base64, give the file's bytes.
pub proof fn lemma_upload_recoverable(content: Seq<u8>, chunks: Seq<DocumentChunk>)
    requires
        chunks_of(chunks, base64_standard(content)),
    ensures
        base64_decoded(chunks.map_values(|c: DocumentChunk| c.content@).flatten()) == content,
{
    lemma_documents_reassemble(chunks, base64_standard(content));
    lemma_base64_roundtrip(content);
}

/// The properties of an upload describe the file: `size` reads back as its
/// length in bytes and `md5` as its MD5 digest.
pub proof fn lemma_properties_describe_content(content: Seq<u8>, properties: Properties)
    requires
        properties.size@ == decimal(content.len()),
        properties.md5@ == hex_lower(md5_digest(content)),
    ensures
        decimal_value(properties.size@) == content.len(),
        hex_bytes(properties.md5@) == md5_digest(content),
{
    lemma_decimal_roundtrip(content.len());
    lemma_hex_roundtrip(md5_digest(content));
}

proof fn lemma_prefix_flatten(chunks: Seq<DocumentChunk>, text: Seq<char>, m: int)
    requires
        chunks_of(chunks, text),
        0 <= m <= chunks.len(),
    ensures
        chunks.map_values(|c: DocumentChunk| c.content@).take(m).flatten() == text.take(
            chunk_end(text.len(), m - 1),
        ),
    decreases m,
{
    let views = chunks.map_values(|c: DocumentChunk| c.content@);
    if m == 0 {
        assert(views.take(0) =~= Seq::<Seq<char>>::empty());
        assert(text.take(0) =~= Seq::<char>::empty());
    } else {
        lemma_prefix_flatten(chunks, text, m - 1);
        let prev = views.take(m - 1);
        assert(views.take(m) =~= prev.push(views[m - 1]));
        prev.lemma_flatten_push(views[m - 1]);
        assert(text.take(chunk_end(text.len(), m - 1)) =~= text.take(chunk_end(text.len(), m - 2))
            + chunk_text(text, m - 1));
    }
}

} // verus!
