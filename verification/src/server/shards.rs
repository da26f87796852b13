//! The record of what has been used up: nullifiers and proof of work hashes, each spread over
//! 256 shards by the first byte of the key.

use super::key_file::{key_values, keys_of, law_appended_key_is_read_back};
use crate::text::{digit_char, digit_text, join3};
use std::collections::HashMap;
use vstd::prelude::*;

verus! {

broadcast use vstd::std_specs::hash::group_hash_axioms;

/// How many shards there are: one for each value of a byte.
pub const SHARDS: usize = 256;

/// The two hexadecimal digits of a byte.
pub open spec fn byte_digits(byte: nat) -> Seq<char> {
    seq![digit_char(byte / 16), digit_char(byte % 16)]
}

/// The name of the file that keeps a shard: its index in two hexadecimal digits, and `.db`.
pub fn shard_file_name(shard: usize) -> (name: String)
    requires
        shard < SHARDS,
    ensures
        name@ == byte_digits(shard as nat) + ".db"@,
{
    let mut name = String::from_str(digit_text((shard / 16) as u8));
    name.append(digit_text((shard % 16) as u8));
    assert(name@ =~= byte_digits(shard as nat));
    name.append(".db");
    name
}

/// What a key stands for.
#[derive(Clone, Copy, Debug, PartialEq, Eq, Structural)]
pub enum KeyKind {
    /// A token that was used up.
    Nullifier,
    /// A proof of work that was used up.
    PowHash,
}

impl KeyKind {
    /// The directory for keys of this kind.
    pub open spec fn directory(self) -> Seq<char> {
        match self {
            KeyKind::Nullifier => "nullifiers"@,
            KeyKind::PowHash => "pow"@,
        }
    }

    /// The directory for keys of this kind.
    pub fn dir_name(&self) -> (name: &'static str)
        ensures
            name@ == self.directory(),
    {
        match self {
            KeyKind::Nullifier => "nullifiers",
            KeyKind::PowHash => "pow",
        }
    }
}

/// Where a shard is kept, below the directory of the database.
pub open spec fn db_path(kind: KeyKind, shard: nat) -> Seq<char> {
    kind.directory() + "/"@ + (byte_digits(shard) + ".db"@)
}

/// The key under which a shard files its entries: the eight bytes after the first one, the
/// lowest first.
pub open spec fn bucket_of(key: Seq<u8>) -> u64 {
    (key[1] + key[2] * 0x100 + key[3] * 0x10000 + key[4] * 0x1000000 + key[5] * 0x100000000
        + key[6] * 0x10000000000 + key[7] * 0x1000000000000 + key[8] * 0x100000000000000) as u64
}

fn bucket_index(key: &[u8; 32]) -> (index: u64)
    ensures
        index == bucket_of(key@),
{
    key[1] as u64 + key[2] as u64 * 0x100 + key[3] as u64 * 0x10000 + key[4] as u64 * 0x1000000
        + key[5] as u64 * 0x100000000 + key[6] as u64 * 0x10000000000 + key[7] as u64
        * 0x1000000000000 + key[8] as u64 * 0x100000000000000
}

fn same_key(a: &[u8; 32], b: &[u8; 32]) -> (same: bool)
    ensures
        same <==> a@ == b@,
{
    let mut i: usize = 0;
    while i < 32
        invariant
            i <= 32,
            forall|j: int| 0 <= j < i ==> a@[j] == b@[j],
        decreases 32 - i,
    {
        if a[i] != b[i] {
            return false;
        }
        i = i + 1;
    }
    assert(a@ =~= b@);
    true
}

/// Whether a list of keys holds a key.
pub open spec fn listed(keys: Seq<[u8; 32]>, key: Seq<u8>) -> bool {
    exists|i: int| 0 <= i < keys.len() && (#[trigger] keys[i])@ == key
}

fn is_listed(keys: &Vec<[u8; 32]>, key: &[u8; 32]) -> (found: bool)
    ensures
        found <==> listed(keys@, key@),
{
    let mut i: usize = 0;
    while i < keys.len()
        invariant
            i <= keys.len(),
            forall|j: int| 0 <= j < i ==> (#[trigger] keys@[j])@ != key@,
        decreases keys.len() - i,
    {
        if same_key(&keys[i], key) {
            return true;
        }
        i = i + 1;
    }
    false
}

/// A set of keys of 32 bytes.
pub struct KeySet {
    buckets: HashMap<u64, Vec<[u8; 32]>>,
}

impl View for KeySet {
    type V = Set<Seq<u8>>;

    closed spec fn view(&self) -> Set<Seq<u8>> {
        Set::new(
            |key: Seq<u8>|
                self.buckets@.contains_key(bucket_of(key)) && listed(
                    self.buckets@[bucket_of(key)]@,
                    key,
                ),
        )
    }
}

impl KeySet {
    /// The empty set.
    pub fn new() -> (set: KeySet)
        ensures
            set@ == Set::<Seq<u8>>::empty(),
    {
        let set = KeySet { buckets: HashMap::new() };
        assert(set@ =~= Set::empty());
        set
    }

    /// Whether the key is in the set.
    pub fn contains(&self, key: &[u8; 32]) -> (found: bool)
        ensures
            found <==> self@.contains(key@),
    {
        match self.buckets.get(&bucket_index(key)) {
            Some(bucket) => is_listed(bucket, key),
            None => false,
        }
    }

    /// Puts the key into the set, and says whether it was not there before.
    pub fn insert(&mut self, key: [u8; 32]) -> (inserted: bool)
        ensures
            inserted <==> !old(self)@.contains(key@),
            final(self)@ == old(self)@.insert(key@),
    {
        if self.contains(&key) {
            assert(self@ =~= self@.insert(key@));
            return false;
        }
        let index: u64 = bucket_index(&key);
        let mut bucket: Vec<[u8; 32]> = match self.buckets.remove(&index) {
            Some(bucket) => bucket,
            None => Vec::new(),
        };
        let ghost before = bucket@;
        bucket.push(key);
        proof {
            assert forall|other: Seq<u8>| #[trigger] listed(bucket@, other) <==> listed(
                before,
                other,
            ) || other == key@ by {
                if listed(before, other) {
                    let i = choose|i: int| 0 <= i < before.len() && (#[trigger] before[i])@ == other;
                    assert(bucket@[i]@ == other);
                }
                if other == key@ {
                    assert(bucket@[before.len() as int]@ == other);
                }
                if listed(bucket@, other) {
                    let i = choose|i: int|
                        0 <= i < bucket@.len() && (#[trigger] bucket@[i])@ == other;
                    if i < before.len() {
                        assert(before[i]@ == other);
                    }
                }
            }
        }
        self.buckets.insert(index, bucket);
        assert(self@ =~= old(self)@.insert(key@));
        true
    }
}

/// What 256 shards hold between them.
spec fn gathered(shards: Seq<KeySet>) -> Set<Seq<u8>> {
    Set::new(|key: Seq<u8>| key.len() == 32 && shards[key[0] as int]@.contains(key))
}

/// Every key sits in the shard of its first byte, and nowhere else.
spec fn routed(shards: Seq<KeySet>) -> bool {
    &&& shards.len() == SHARDS
    &&& forall|i: int, key: Seq<u8>|
        0 <= i < SHARDS && #[trigger] shards[i]@.contains(key) ==> key.len() == 32 && key[0] == i
}

fn empty_shards() -> (shards: Vec<KeySet>)
    ensures
        routed(shards@),
        gathered(shards@) == Set::<Seq<u8>>::empty(),
{
    let mut shards: Vec<KeySet> = Vec::new();
    let mut i: usize = 0;
    while i < SHARDS
        invariant
            i <= SHARDS,
            shards.len() == i,
            forall|j: int| 0 <= j < i ==> (#[trigger] shards@[j])@ == Set::<Seq<u8>>::empty(),
        decreases SHARDS - i,
    {
        shards.push(KeySet::new());
        i = i + 1;
    }
    assert(gathered(shards@) =~= Set::empty());
    shards
}

fn insert_routed(shards: &mut Vec<KeySet>, key: [u8; 32]) -> (inserted: bool)
    requires
        routed(old(shards)@),
    ensures
        routed(final(shards)@),
        inserted <==> !gathered(old(shards)@).contains(key@),
        gathered(final(shards)@) == gathered(old(shards)@).insert(key@),
{
    let shard: usize = ShardedDB::get_shard(&key);
    let inserted = shards[shard].insert(key);
    proof {
        let before = old(shards)@;
        let after = shards@;
        assert(after =~= before.update(shard as int, after[shard as int]));
        assert(gathered(after) =~= gathered(before).insert(key@));
    }
    inserted
}

/// A sharded database for nullifiers and proof of work hashes. The first byte of a key says in
/// which of the 256 shards it is kept.
pub struct ShardedDB {
    nullifiers: Vec<KeySet>,
    pow_hashes: Vec<KeySet>,
}

impl ShardedDB {
    /// The nullifiers in the database.
    pub closed spec fn nullifiers(&self) -> Set<Seq<u8>> {
        gathered(self.nullifiers@)
    }

    /// The proof of work hashes in the database.
    pub closed spec fn pow_hashes(&self) -> Set<Seq<u8>> {
        gathered(self.pow_hashes@)
    }

    /// All shards are there, and every key sits in the shard of its first byte.
    pub closed spec fn wf(&self) -> bool {
        routed(self.nullifiers@) && routed(self.pow_hashes@)
    }

    /// The keys of a kind in the database.
    pub open spec fn recorded(&self, kind: KeyKind) -> Set<Seq<u8>> {
        match kind {
            KeyKind::Nullifier => self.nullifiers(),
            KeyKind::PowHash => self.pow_hashes(),
        }
    }

    /// How many shards there are for keys of a kind.
    pub closed spec fn shards(&self, kind: KeyKind) -> nat {
        match kind {
            KeyKind::Nullifier => self.nullifiers@.len(),
            KeyKind::PowHash => self.pow_hashes@.len(),
        }
    }

    /// Where a shard is kept, below the directory of the database: in the directory of its kind,
    /// under the name of its index.
    pub fn get_db_path(kind: KeyKind, shard: usize) -> (path: String)
        requires
            shard < SHARDS,
        ensures
            path@ == db_path(kind, shard as nat),
    {
        join3(kind.dir_name(), "/", shard_file_name(shard).as_str())
    }

    /// An empty database with all its shards.
    pub fn create() -> (db: ShardedDB)
        ensures
            db.wf(),
            forall|kind: KeyKind| #[trigger] db.shards(kind) == SHARDS,
            db.nullifiers() == Set::<Seq<u8>>::empty(),
            db.pow_hashes() == Set::<Seq<u8>>::empty(),
    {
        ShardedDB { nullifiers: empty_shards(), pow_hashes: empty_shards() }
    }

    /// The index of the shard that keeps a hash: its first byte.
    pub fn get_shard(hash: &[u8]) -> (shard: usize)
        requires
            hash.len() > 0,
        ensures
            shard == hash@[0],
    {
        hash[0] as usize
    }

    /// Puts the nullifier into the database, and says whether it was not there before.
    pub fn insert_nullifier(&mut self, nullifier: [u8; 32]) -> (inserted: bool)
        requires
            old(self).wf(),
        ensures
            final(self).wf(),
            inserted <==> !old(self).nullifiers().contains(nullifier@),
            final(self).nullifiers() == old(self).nullifiers().insert(nullifier@),
            final(self).pow_hashes() == old(self).pow_hashes(),
    {
        insert_routed(&mut self.nullifiers, nullifier)
    }

    /// Whether the nullifier is in the database.
    pub fn contains_nullifier(&self, nullifier: &[u8; 32]) -> (found: bool)
        requires
            self.wf(),
        ensures
            found <==> self.nullifiers().contains(nullifier@),
    {
        let shard: usize = Self::get_shard(nullifier);
        self.nullifiers[shard].contains(nullifier)
    }

    /// Whether the nullifier has been spent, that is, whether it is in the database.
    pub fn is_nullifier_spent(&self, nullifier: &[u8; 32]) -> (spent: bool)
        requires
            self.wf(),
        ensures
            spent <==> self.nullifiers().contains(nullifier@),
    {
        self.contains_nullifier(nullifier)
    }

    /// Puts the proof of work hash into the database, and says whether it was not there before.
    pub fn insert_pow_hash(&mut self, pow_hash: [u8; 32]) -> (inserted: bool)
        requires
            old(self).wf(),
        ensures
            final(self).wf(),
            inserted <==> !old(self).pow_hashes().contains(pow_hash@),
            final(self).pow_hashes() == old(self).pow_hashes().insert(pow_hash@),
            final(self).nullifiers() == old(self).nullifiers(),
    {
        insert_routed(&mut self.pow_hashes, pow_hash)
    }

    /// Whether the proof of work hash is in the database.
    pub fn contains_pow_hash(&self, pow_hash: &[u8; 32]) -> (found: bool)
        requires
            self.wf(),
        ensures
            found <==> self.pow_hashes().contains(pow_hash@),
    {
        let shard: usize = Self::get_shard(pow_hash);
        self.pow_hashes[shard].contains(pow_hash)
    }

    /// Takes up keys of a kind that were written down earlier.
    pub fn restore(&mut self, kind: KeyKind, keys: &Vec<[u8; 32]>)
        requires
            old(self).wf(),
        ensures
            final(self).wf(),
            forall|other: KeyKind| #[trigger]
                final(self).recorded(other) == if other == kind {
                    old(self).recorded(kind).union(key_values(keys@).to_set())
                } else {
                    old(self).recorded(other)
                },
    {
        let ghost values = key_values(keys@);
        let mut i: usize = 0;
        while i < keys.len()
            invariant
                i <= keys.len(),
                values == key_values(keys@),
                self.wf(),
                forall|other: KeyKind| #[trigger]
                    self.recorded(other) =~= if other == kind {
                        old(self).recorded(kind).union(values.take(i as int).to_set())
                    } else {
                        old(self).recorded(other)
                    },
            decreases keys.len() - i,
        {
            let ghost before = *self;
            proof {
                assert(values.take(i + 1) =~= values.take(i as int).push(values[i as int]));
                lemma_push_to_set(values.take(i as int), values[i as int]);
            }
            match kind {
                KeyKind::Nullifier => {
                    self.insert_nullifier(keys[i]);
                },
                KeyKind::PowHash => {
                    self.insert_pow_hash(keys[i]);
                },
            }
            proof {
                let added = old(self).recorded(kind).union(values.take(i + 1).to_set());
                assert(before.recorded(kind).insert(values[i as int]) =~= added);
                assert(self.recorded(kind) == added);
                assert forall|other: KeyKind| other != kind implies #[trigger] self.recorded(other)
                    == old(self).recorded(other) by {
                    assert(before.recorded(other) == old(self).recorded(other));
                }
            }
            i = i + 1;
        }
        assert(values.take(i as int) =~= values);
    }
}

proof fn lemma_push_to_set(keys: Seq<Seq<u8>>, key: Seq<u8>)
    ensures
        keys.push(key).to_set() == keys.to_set().insert(key),
{
    let longer = keys.push(key);
    assert forall|k: Seq<u8>| longer.to_set().contains(k) == keys.to_set().insert(key).contains(
        k,
    ) by {
        if keys.contains(k) {
            let i = choose|i: int| 0 <= i < keys.len() && keys[i] == k;
            assert(longer[i] == k);
        }
        assert(longer[keys.len() as int] == key);
    }
    assert(longer.to_set() =~= keys.to_set().insert(key));
}

/// What was recorded is still recorded after a restart: a database that is restored from a file
/// to which a key was appended holds that key, and all that the file kept before.
pub proof fn law_restart_forgets_nothing(
    content: Seq<u8>,
    keys: Seq<Seq<u8>>,
    key: Seq<u8>,
    kind: KeyKind,
    fresh: ShardedDB,
    read: Seq<[u8; 32]>,
    restored: ShardedDB,
)
    requires
        keys_of(content) == Some(keys),
        key.len() == 32,
        keys_of(content + key) == Some(key_values(read)),
        restored.recorded(kind) == fresh.recorded(kind).union(key_values(read).to_set()),
    ensures
        restored.recorded(kind) == fresh.recorded(kind).union(keys.to_set()).insert(key),
{
    law_appended_key_is_read_back(content, keys, key);
    lemma_push_to_set(keys, key);
    assert(restored.recorded(kind) =~= fresh.recorded(kind).union(keys.to_set()).insert(key));
}

proof fn lemma_digit_chars_differ(a: nat, b: nat)
    requires
        a < 16,
        b < 16,
        digit_char(a) == digit_char(b),
    ensures
        a == b,
{
}

/// Different shards are kept in different files.
pub proof fn law_shard_files_differ(a: nat, b: nat)
    requires
        a < SHARDS,
        b < SHARDS,
        byte_digits(a) + ".db"@ == byte_digits(b) + ".db"@,
    ensures
        a == b,
{
    let first = byte_digits(a) + ".db"@;
    let second = byte_digits(b) + ".db"@;
    assert(first[0] == digit_char(a / 16) && first[1] == digit_char(a % 16));
    assert(second[0] == digit_char(b / 16) && second[1] == digit_char(b % 16));
    lemma_digit_chars_differ(a / 16, b / 16);
    lemma_digit_chars_differ(a % 16, b % 16);
}

/// Different shards, of one kind or of both, are kept in different places.
pub proof fn law_db_paths_differ(kind: KeyKind, shard: nat, other_kind: KeyKind, other: nat)
    requires
        shard < SHARDS,
        other < SHARDS,
        db_path(kind, shard) == db_path(other_kind, other),
    ensures
        kind == other_kind,
        shard == other,
{
    reveal_strlit("nullifiers");
    reveal_strlit("pow");
    reveal_strlit("/");
    let first = db_path(kind, shard);
    let second = db_path(other_kind, other);
    assert(first[0] == kind.directory()[0]);
    assert(second[0] == other_kind.directory()[0]);
    let start = (kind.directory().len() + 1) as int;
    assert(first.skip(start) =~= byte_digits(shard) + ".db"@);
    assert(second.skip(start) =~= byte_digits(other) + ".db"@);
    law_shard_files_differ(shard, other);
}

/// What the database says of a key is whether the key was recorded, for each kind on its own.
pub proof fn law_recorded_keys_are_known(
    db: ShardedDB,
    key: [u8; 32],
    found: bool,
    spent: bool,
    hash_found: bool,
)
    requires
        call_ensures(ShardedDB::contains_nullifier, (&db, &key), found),
        call_ensures(ShardedDB::is_nullifier_spent, (&db, &key), spent),
        call_ensures(ShardedDB::contains_pow_hash, (&db, &key), hash_found),
    ensures
        found <==> db.recorded(KeyKind::Nullifier).contains(key@),
        spent == found,
        hash_found <==> db.recorded(KeyKind::PowHash).contains(key@),
{
}

/// A key is kept in the shard of its first byte, in the directory of its kind, in a file that is
/// named after that byte in hexadecimal digits.
pub proof fn law_keys_have_their_files(
    kind: KeyKind,
    hash: &[u8],
    shard: usize,
    path: String,
)
    requires
        hash@.len() > 0,
        call_ensures(ShardedDB::get_shard, (hash,), shard),
        call_ensures(ShardedDB::get_db_path, (kind, shard), path),
    ensures
        shard == hash@[0],
        path@ =~= match kind {
            KeyKind::Nullifier => "nullifiers/"@,
            KeyKind::PowHash => "pow/"@,
        } + seq![digit_char(shard as nat / 16), digit_char(shard as nat % 16)] + ".db"@,
{
    reveal_strlit("nullifiers");
    reveal_strlit("nullifiers/");
    reveal_strlit("pow");
    reveal_strlit("pow/");
    reveal_strlit("/");
    reveal_strlit(".db");
}

} // verus!
