use vstd::prelude::*;
use crate::completion::split_lines;
use sha2::Digest;
use vstd::string::StringSliceAdditionalSpecFns;

verus! {

/// The lower-hex digest that the content hasher assigns to `data`: a
/// function of the bytes alone, the same in every process.
pub uninterp spec fn sha256_hex_of(data: Seq<u8>) -> Seq<char>;

/// Relies on sha2::Sha256 (update, finalize) and its lower-hex
/// formatting: a 32-byte digest printed as 64 hex characters, a
/// function of the input bytes alone.
#[verifier::external_body]
fn sha256_hex(data: &str) -> (r: String)
    ensures
        r@ == sha256_hex_of(data.spec_bytes()),
        r@.len() == 64,
{
    let mut hasher = sha2::Sha256::new();
    hasher.update(data.as_bytes());
    format!("{:x}", hasher.finalize())
}

/// A code chunk handed to the similarity index.
pub struct ChunkToIndex {
    pub chunk_id: String,
    pub content: String,
    pub content_hash: String,
    pub symbol_name: Option<String>,
    pub symbol_type: String,
    pub start_line: i64,
    pub end_line: i64,
}

/// A node's source to be indexed.
pub struct NodeToIndex {
    pub node_id: String,
    pub code: String,
}

/// The whole-node chunk an unchunked node is indexed under: chunk
/// `toplevel:0`, hashed over the full code, spanning every line.
///
/// The hash decides re-indexing: an unchanged hash means the stored
/// embedding is still valid and the node is skipped.
pub fn toplevel_chunk(code: &str) -> (r: ChunkToIndex)
    ensures
        r.chunk_id@ == "toplevel:0"@,
        r.content@ == code@,
        r.content_hash@ == sha256_hex_of(code.spec_bytes()),
        r.symbol_name is None,
        r.symbol_type@ == "toplevel"@,
        r.start_line == 0,
        r.end_line == if split_lines(code@).len() == 0 {
            0int
        } else if split_lines(code@).len() - 1 > i64::MAX {
            i64::MAX as int
        } else {
            split_lines(code@).len() - 1
        },
{
    let content_hash = sha256_hex(code);
    let lines = crate::completion::split_lines_vec(code);
    let count = lines.len();
    let end_line: i64 = if count == 0 {
        0
    } else if (count - 1) as u64 > i64::MAX as u64 {
        i64::MAX
    } else {
        (count - 1) as i64
    };
    ChunkToIndex {
        chunk_id: "toplevel:0".to_owned(),
        content: code.to_owned(),
        content_hash,
        symbol_name: None,
        symbol_type: "toplevel".to_owned(),
        start_line: 0,
        end_line,
    }
}

} // verus!
