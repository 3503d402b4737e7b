//! The textual form of a store path and the digest embedded in it.

use vstd::prelude::*;

verus! {

/// Directory that every store path lives in.
pub const STORE_DIRECTORY: &'static str = "/nix/store";

/// Number of characters of the digest of a store path.
pub const DIGEST_SIZE: usize = 32;

/// The store directory followed by the path separator.
pub open spec fn store_prefix() -> Seq<char> {
    STORE_DIRECTORY@.push('/')
}

/// Index of the first character of the digest.
pub open spec fn digest_start() -> int {
    store_prefix().len() as int
}

/// Index of the separator that follows the digest.
pub open spec fn digest_end() -> int {
    digest_start() + DIGEST_SIZE as int
}

/// `<store directory>/<digest>-<name>` with a digest of `DIGEST_SIZE`
/// characters and a name of at least one character.
pub open spec fn is_store_path(path: Seq<char>) -> bool {
    &&& path.len() > digest_end() + 1
    &&& path.subrange(0, digest_start()) == store_prefix()
    &&& path[digest_end()] == '-'
}

/// The digest of a store path: the characters between the prefix and the
/// separator in front of the name.
pub open spec fn digest_of(path: Seq<char>) -> Seq<char> {
    path.subrange(digest_start(), digest_end())
}

/// The prefix has eleven characters, so the digest is at 11..43.
pub proof fn lemma_store_prefix()
    ensures
        store_prefix() == seq!['/', 'n', 'i', 'x', '/', 's', 't', 'o', 'r', 'e', '/'],
        STORE_DIRECTORY@.len() == 10,
        digest_start() == 11,
        digest_end() == 43,
{
    reveal_strlit("/nix/store");
    assert(store_prefix() =~= seq!['/', 'n', 'i', 'x', '/', 's', 't', 'o', 'r', 'e', '/']);
}

/// Whether `store_path` has the shape of a store path.
pub fn is_valid_store_path(store_path: &str) -> (valid: bool)
    ensures
        valid == is_store_path(store_path@),
{
    proof {
        lemma_store_prefix();
    }
    let directory_len: usize = STORE_DIRECTORY.unicode_len();
    let start_index: usize = directory_len + 1;
    let end_index: usize = start_index + DIGEST_SIZE;
    if store_path.unicode_len() <= end_index + 1 {
        return false;
    }
    let mut i: usize = 0;
    while i < directory_len
        invariant
            i <= directory_len == STORE_DIRECTORY@.len() == 10,
            store_path@.len() > 44,
            store_path@.subrange(0, i as int) == STORE_DIRECTORY@.subrange(0, i as int),
        decreases directory_len - i,
    {
        if store_path.get_char(i) != STORE_DIRECTORY.get_char(i) {
            assert(store_path@.subrange(0, 11)[i as int] != store_prefix()[i as int]);
            return false;
        }
        assert(store_path@.subrange(0, i + 1) =~= store_path@.subrange(0, i as int).push(
            store_path@[i as int],
        ));
        assert(STORE_DIRECTORY@.subrange(0, i + 1) =~= STORE_DIRECTORY@.subrange(0, i as int).push(
            STORE_DIRECTORY@[i as int],
        ));
        i += 1;
    }
    assert(STORE_DIRECTORY@.subrange(0, 10) =~= STORE_DIRECTORY@);
    if store_path.get_char(directory_len) != '/' {
        assert(store_path@.subrange(0, 11)[10] != store_prefix()[10]);
        return false;
    }
    assert(store_path@.subrange(0, 11) =~= store_path@.subrange(0, 10).push('/'));
    store_path.get_char(end_index) == '-'
}

/// Strip the digest from `/nix/store/<digest>-<name>`.
pub fn hash_from_store_path(store_path: &str) -> (digest: &str)
    requires
        is_store_path(store_path@),
    ensures
        digest@ == digest_of(store_path@),
        digest@.len() == DIGEST_SIZE,
{
    proof {
        lemma_store_prefix();
    }
    // Store paths always start with the store directory, followed by a path separator
    let start_index: usize = STORE_DIRECTORY.unicode_len() + 1;
    // The next DIGEST_SIZE characters are the digest
    let end_index: usize = start_index + DIGEST_SIZE;
    store_path.substring_char(start_index, end_index)
}

} // verus!
