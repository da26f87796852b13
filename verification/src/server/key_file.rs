//! The file that keeps the keys of one shard: a mark that says what the file is, then the keys,
//! 32 bytes each, in the order in which they came.

use vstd::prelude::*;

verus! {

/// How long the mark at the start of a file is.
pub const MARK: usize = 8;

/// The mark at the start of a file: `acs-keys` in ASCII.
pub open spec fn mark() -> Seq<u8> {
    seq![97u8, 99, 115, 45, 107, 101, 121, 115]
}

/// The content of a file that keeps no keys yet.
pub fn new_key_file() -> (content: [u8; 8])
    ensures
        content@ == mark(),
{
    let content: [u8; 8] = [97, 99, 115, 45, 107, 101, 121, 115];
    assert(content@ =~= mark());
    content
}

/// The key at an index of a file.
pub open spec fn key_at(content: Seq<u8>, i: int) -> Seq<u8> {
    content.subrange(MARK + 32 * i, MARK + 32 * i + 32)
}

/// The keys that a file keeps: `None` where it does not start with the mark, or does not go on
/// with whole keys.
pub open spec fn keys_of(content: Seq<u8>) -> Option<Seq<Seq<u8>>> {
    if content.len() >= MARK && content.take(MARK as int) == mark() && (content.len() - MARK) % 32
        == 0 {
        Some(Seq::new(((content.len() - MARK) / 32) as nat, |i: int| key_at(content, i)))
    } else {
        None
    }
}

/// Some keys, as mathematical values.
pub open spec fn key_values(keys: Seq<[u8; 32]>) -> Seq<Seq<u8>> {
    keys.map_values(|key: [u8; 32]| key@)
}

fn is_marked(content: &[u8]) -> (marked: bool)
    ensures
        marked <==> content@.len() >= MARK && content@.take(MARK as int) == mark(),
{
    if content.len() < MARK {
        return false;
    }
    let expected = new_key_file();
    let mut i: usize = 0;
    while i < MARK
        invariant
            i <= MARK <= content@.len(),
            expected@ == mark(),
            forall|j: int| 0 <= j < i ==> content@[j] == mark()[j],
        decreases MARK - i,
    {
        if content[i] != expected[i] {
            assert(content@.take(MARK as int)[i as int] != mark()[i as int]);
            return false;
        }
        i = i + 1;
    }
    assert(content@.take(MARK as int) =~= mark());
    true
}

fn read_key(content: &[u8], start: usize) -> (key: [u8; 32])
    requires
        start + 32 <= content@.len(),
    ensures
        key@ == content@.subrange(start as int, start + 32),
{
    let len: usize = content.len();
    let mut key = [0u8; 32];
    let mut i: usize = 0;
    while i < 32
        invariant
            i <= 32,
            start + 32 <= len == content@.len(),
            forall|j: int| 0 <= j < i ==> key@[j] == content@[start + j],
        decreases 32 - i,
    {
        key[i] = content[start + i];
        i = i + 1;
    }
    assert(key@ =~= content@.subrange(start as int, start + 32));
    key
}

/// Reads the keys that a file keeps. A file that does not start with the mark, or does not go on
/// with whole keys, is refused.
pub fn keys_in(content: &[u8]) -> (keys: Option<Vec<[u8; 32]>>)
    ensures
        keys is Some <==> keys_of(content@) is Some,
        keys matches Some(keys) ==> keys_of(content@) == Some(key_values(keys@)),
{
    if !is_marked(content) || (content.len() - MARK) % 32 != 0 {
        return None;
    }
    let mut keys: Vec<[u8; 32]> = Vec::new();
    let mut start: usize = MARK;
    while start < content.len()
        invariant
            MARK <= start <= content@.len(),
            (content@.len() - MARK) % 32 == 0,
            start == MARK + 32 * keys.len(),
            forall|j: int| 0 <= j < keys.len() ==> (#[trigger] keys@[j])@ == key_at(content@, j),
        decreases content@.len() - start,
    {
        keys.push(read_key(content, start));
        start = start + 32;
    }
    assert(key_values(keys@) =~= keys_of(content@)->0);
    Some(keys)
}

/// A new file keeps no keys.
pub proof fn law_new_file_keeps_nothing()
    ensures
        keys_of(mark()) == Some(Seq::<Seq<u8>>::empty()),
{
    assert(mark().take(MARK as int) =~= mark());
    assert(keys_of(mark())->0 =~= Seq::empty());
}

/// A key that is appended to a file is read back behind those that were there, so a key that was
/// written down is known again later.
pub proof fn law_appended_key_is_read_back(content: Seq<u8>, keys: Seq<Seq<u8>>, key: Seq<u8>)
    requires
        keys_of(content) == Some(keys),
        key.len() == 32,
    ensures
        keys_of(content + key) == Some(keys.push(key)),
{
    let longer = content + key;
    assert(longer.take(MARK as int) =~= content.take(MARK as int));
    let read = keys_of(longer)->0;
    assert forall|i: int| 0 <= i < keys.push(key).len() implies read[i] == keys.push(key)[i] by {
        if i < keys.len() {
            assert(key_at(longer, i) =~= key_at(content, i));
        } else {
            assert(key_at(longer, i) =~= key);
        }
    }
    assert(read =~= keys.push(key));
}

/// The keys that are read from a file are all that is behind its mark, byte for byte and in order.
pub proof fn law_files_are_read_completely(content: &[u8], keys: Vec<[u8; 32]>, i: int, j: int)
    requires
        call_ensures(keys_in, (content,), Some(keys)),
        0 <= i < keys.len(),
        0 <= j < 32,
    ensures
        content@.len() == 8 + 32 * keys.len(),
        keys@[i]@[j] == content@[8 + 32 * i + j],
{
    let read = keys_of(content@)->0;
    assert(key_values(keys@)[i] == read[i]);
    assert(read.len() == keys.len());
    assert(read[i] == key_at(content@, i));
}

} // verus!
