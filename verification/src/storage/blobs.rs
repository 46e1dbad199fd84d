use vstd::prelude::*;

use crate::model::id::{id_shaped, is_hex_digit};
use crate::storage::path::{join_path, path_join};
use vstd::utf8::{decode_utf8, encode_utf8, is_char_boundary};

verus! {

/// Where a blob with hash `hash` is kept under `root`: in a shard
/// directory named by the hash's first two bytes, or directly under the
/// root for a hash shorter than that.
pub open spec fn blob_path(root: Seq<char>, hash: Seq<char>) -> Seq<char> {
    let bytes = encode_utf8(hash);
    if bytes.len() < 2 {
        path_join(root, hash)
    } else {
        path_join(path_join(root, decode_utf8(bytes.subrange(0, 2))), hash)
    }
}

/// Blobs, stored by their content hash under a root directory.
#[derive(Debug)]
pub struct BlobStore {
    pub root: String,
}

impl BlobStore {
    pub fn new(root: String) -> (b: BlobStore)
        ensures
            b.root@ == root@,
    {
        BlobStore { root }
    }

    /// The file a blob with this hash is kept in. The shard is the hash's
    /// first two bytes, which must end on a character boundary.
    pub fn path_for_hash(&self, hash: &str) -> (p: String)
        requires
            encode_utf8(hash@).len() < 2 || is_char_boundary(encode_utf8(hash@), 2),
        ensures
            p@ == blob_path(self.root@, hash@),
    {
        broadcast use vstd::utf8::group_utf8_lib;

        proof {
            vstd::utf8::encode_utf8_valid_utf8(hash@);
        }
        if !hash.is_char_boundary(2) {
            return join_path(self.root.as_str(), hash);
        }
        let (shard, _) = hash.split_at(2);
        proof {
            vstd::utf8::encode_utf8_decode_utf8(shard@);
            assert(shard@ == decode_utf8(encode_utf8(hash@).subrange(0, 2)));
        }
        let dir = join_path(self.root.as_str(), shard);
        join_path(dir.as_str(), hash)
    }
}

/// For an id-shaped hash (every content hash is one) the shard is simply
/// the hash's first two characters, and `path_for_hash` may always be
/// called with it.
pub proof fn lemma_blob_path_of_id(root: Seq<char>, hash: Seq<char>)
    requires
        id_shaped(hash),
    ensures
        is_char_boundary(encode_utf8(hash), 2),
        blob_path(root, hash) == path_join(path_join(root, hash.take(2)), hash),
{
    assert(vstd::utf8::is_ascii_chars(hash)) by {
        assert forall|i: int| 0 <= i < hash.len() implies '\0' <= #[trigger] hash[i] <= '\u{7f}' by {
            assert(is_hex_digit(hash[i]));
        }
    }
    let bytes = encode_utf8(hash);
    vstd::utf8::is_ascii_chars_encode_utf8(hash);
    vstd::utf8::encode_utf8_valid_utf8(hash);
    assert(vstd::utf8::is_leading_byte_width_1(bytes[2]));
    vstd::utf8::is_char_boundary_iff_is_leading_byte(bytes, 2);
    let head = hash.take(2);
    assert(vstd::utf8::is_ascii_chars(head));
    vstd::utf8::is_ascii_chars_encode_utf8(head);
    assert(encode_utf8(head) =~= bytes.subrange(0, 2)) by {
        assert(head[0] == hash[0] && head[1] == hash[1]);
    }
    vstd::utf8::encode_utf8_decode_utf8(head);
}

} // verus!
