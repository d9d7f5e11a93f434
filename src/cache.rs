use vstd::prelude::*;

verus! {

/// Arena indices grouped by the words derived from their logical key, held in a hashbrown
/// map that hashes with rustc_hash's `FxHasher`.
#[verifier::external_body]
pub struct BucketTable {
    map: hashbrown::HashMap<Vec<u64>, Vec<usize>, core::hash::BuildHasherDefault<rustc_hash::FxHasher>>,
}

/// What a `BucketTable` holds: for each sequence of words, its bucket of indices.
pub uninterp spec fn buckets(t: BucketTable) -> Map<Seq<u64>, Seq<usize>>;

/// The contents of an empty table.
pub open spec fn no_buckets() -> Map<Seq<u64>, Seq<usize>> {
    Map::empty()
}

impl BucketTable {
    /// Relies on hashbrown::HashMap::with_hasher: a new map is empty.
    #[verifier::external_body]
    fn new() -> (r: Self)
        ensures
            buckets(r) == no_buckets(),
    {
        BucketTable { map: hashbrown::HashMap::with_hasher(core::hash::BuildHasherDefault::default()) }
    }

    /// Relies on hashbrown::HashMap::get: the value stored under the key equal to `key`
    /// (`Vec<u64>` and `[u64]` compare and hash by their elements), if any.
    #[verifier::external_body]
    fn get(&self, key: &[u64]) -> (r: Option<&Vec<usize>>)
        ensures
            match r {
                Some(v) => buckets(*self).contains_key(key@) && v@ == buckets(*self)[key@],
                None => !buckets(*self).contains_key(key@),
            },
    {
        self.map.get(key)
    }

    /// Relies on hashbrown::HashMap::insert: the key maps to the new value afterwards, the
    /// others are untouched.
    #[verifier::external_body]
    fn insert(&mut self, key: Vec<u64>, v: Vec<usize>)
        ensures
            buckets(*final(self)) == buckets(*old(self)).insert(key@, v@),
    {
        self.map.insert(key, v);
    }
}

/// A record that can be interned: it derives its own logical key from itself.
pub trait InternKey: Sized {
    /// The logical key; two records stand for the same object exactly when their keys are equal.
    type Key;

    spec fn key(&self) -> Self::Key;

    /// The words under which a key's bucket is filed.
    spec fn key_hash_words(k: Self::Key) -> Seq<u64>;

    fn hash_words(&self) -> (r: Vec<u64>)
        ensures
            r@ == Self::key_hash_words(self.key()),
    ;

    /// Whether two records have the same logical key.
    fn same_key(&self, other: &Self) -> (r: bool)
        ensures
            r == (self.key() == other.key()),
    ;
}

/// The words under which a record with key `k` is filed.
pub open spec fn bucket_of_key<T: InternKey>(k: T::Key) -> Seq<u64> {
    T::key_hash_words(k)
}

/// Hash-consing storage for one shape of record.
///
/// Records live in an arena that only grows: an index, once handed out, names the same
/// record until the cache is dropped. A lookup finds the bucket of the words derived from the
/// logical key, then compares that key with the key each candidate derives from itself; a
/// record is added only when no stored record has that key, so no two stored records share
/// a key.
pub struct TypeCache<T> {
    arena: Vec<T>,
    table: BucketTable,
}

impl<T: InternKey> TypeCache<T> {
    /// The stored records, in the order they were added.
    pub closed spec fn items(&self) -> Seq<T> {
        self.arena@
    }

    pub open spec fn len(&self) -> nat {
        self.items().len()
    }

    /// Logical key of the record at index `i`.
    pub open spec fn key_at(&self, i: int) -> T::Key {
        self.items()[i].key()
    }

    /// Whether some stored record has logical key `k`.
    pub open spec fn has_key(&self, k: T::Key) -> bool {
        exists|i: int| 0 <= i < self.len() && #[trigger] self.key_at(i) == k
    }

    /// No two stored records share a logical key.
    pub open spec fn distinct(&self) -> bool {
        forall|i: int, j: int| 0 <= i < self.len() && 0 <= j < self.len() && #[trigger] self.key_at(i) == #[trigger] self.key_at(j) ==> i == j
    }

    pub closed spec fn wf(&self) -> bool {
        &&& self.distinct()
        &&& forall|i: int|
            0 <= i < self.len() ==> #[trigger] buckets(self.table).contains_key(bucket_of_key::<T>(self.key_at(i)))
                && buckets(self.table)[bucket_of_key::<T>(self.key_at(i))].contains(i as usize)
        &&& forall|h: Seq<u64>, k: int|
            #![trigger buckets(self.table)[h][k]]
            buckets(self.table).contains_key(h) && 0 <= k < buckets(self.table)[h].len() ==> buckets(
                self.table,
            )[h][k] < self.len() && bucket_of_key::<T>(self.key_at(buckets(self.table)[h][k] as int)) == h
    }

    /// Every record of `old` is still here, at the same index.
    pub open spec fn extends(&self, old: &Self) -> bool {
        old.len() <= self.len() && forall|i: int| 0 <= i < old.len() ==> #[trigger] self.items()[i] == old.items()[i]
    }

    pub proof fn lemma_distinct(&self)
        requires
            self.wf(),
        ensures
            self.distinct(),
    {
    }

    pub fn new() -> (r: Self)
        ensures
            r.wf(),
            r.len() == 0,
    {
        TypeCache { arena: Vec::new(), table: BucketTable::new() }
    }

    pub fn get(&self, i: usize) -> (r: &T)
        requires
            i < self.len(),
        ensures
            *r == self.items()[i as int],
    {
        &self.arena[i]
    }

    /// The index of the record whose logical key is `item`'s, adding `item` when there is none.
    pub fn get_or_create(&mut self, item: T) -> (r: usize)
        requires
            old(self).wf(),
        ensures
            final(self).wf(),
            final(self).extends(old(self)),
            r < final(self).len(),
            final(self).key_at(r as int) == item.key(),
            old(self).has_key(item.key()) ==> *final(self) == *old(self) && r < old(self).len(),
            !old(self).has_key(item.key()) ==> final(self).items() == old(self).items().push(item) && r == old(
                self,
            ).len(),
    {
        let words = item.hash_words();
        let ghost h = words@;
        let mut bucket: Vec<usize> = Vec::new();
        match self.table.get(words.as_slice()) {
            Some(b) => {
                let mut k: usize = 0;
                while k < b.len()
                    invariant
                        self.wf(),
                        *self == *old(self),
                        buckets(self.table).contains_key(h),
                        b@ == buckets(self.table)[h],
                        words@ == T::key_hash_words(item.key()),
                        h == bucket_of_key::<T>(item.key()),
                        k <= b@.len(),
                        bucket@ == b@.take(k as int),
                        forall|kk: int| 0 <= kk < k ==> self.key_at(b@[kk] as int) != item.key(),
                    decreases b@.len() - k,
                {
                    let j = b[k];
                    assert(b@[k as int] == buckets(self.table)[h][k as int]);
                    if self.arena[j].same_key(&item) {
                        return j;
                    }
                    bucket.push(j);
                    k = k + 1;
                    assert(bucket@ =~= b@.take(k as int));
                }
                assert(bucket@ =~= b@);
            },
            None => {},
        }
        assert(*self == *old(self));
        assert(buckets(self.table).contains_key(h) ==> bucket@ == buckets(self.table)[h]);
        assert(!buckets(self.table).contains_key(h) ==> bucket@.len() == 0);
        assert(forall|kk: int| 0 <= kk < bucket@.len() ==> self.key_at(bucket@[kk] as int) != item.key());
        let idx = self.arena.len();
        proof {
            if self.has_key(item.key()) {
                let i = choose|i: int| 0 <= i < self.len() && #[trigger] self.key_at(i) == item.key();
                assert(buckets(self.table).contains_key(bucket_of_key::<T>(self.key_at(i))));
                assert(buckets(self.table)[bucket_of_key::<T>(self.key_at(i))].contains(i as usize));
                let kk = choose|kk: int| 0 <= kk < bucket@.len() && bucket@[kk] == i as usize;
                assert(self.key_at(bucket@[kk] as int) != item.key());
                assert(false);
            }
        }
        let ghost old_table = buckets(self.table);
        self.arena.push(item);
        bucket.push(idx);
        self.table.insert(words, bucket);
        proof {
            let n = self.len();
            assert(forall|i: int| 0 <= i < n - 1 ==> self.key_at(i) == old(self).key_at(i));
            assert forall|i: int, j: int|
                0 <= i < n && 0 <= j < n && #[trigger] self.key_at(i) == #[trigger] self.key_at(j) implies i == j by {
                if i < n - 1 && j < n - 1 {
                    assert(old(self).key_at(i) == old(self).key_at(j));
                } else if i < n - 1 {
                    assert(old(self).key_at(i) == item.key());
                    assert(old(self).has_key(item.key()));
                } else if j < n - 1 {
                    assert(old(self).key_at(j) == item.key());
                    assert(old(self).has_key(item.key()));
                }
            }
            assert forall|i: int| 0 <= i < n implies #[trigger] buckets(self.table).contains_key(
                bucket_of_key::<T>(self.key_at(i)),
            ) && buckets(self.table)[bucket_of_key::<T>(self.key_at(i))].contains(i as usize) by {
                if i < n - 1 {
                    let hi = bucket_of_key::<T>(self.key_at(i));
                    assert(buckets(old(self).table).contains_key(bucket_of_key::<T>(old(self).key_at(i))));
                    assert(old_table.contains_key(hi) && old_table[hi].contains(i as usize));
                    if hi == h {
                        let kk = choose|kk: int| 0 <= kk < old_table[hi].len() && old_table[hi][kk] == i as usize;
                        assert(bucket@[kk] == i as usize);
                    }
                } else {
                    assert(bucket@[bucket@.len() - 1] == idx);
                }
            }
            assert forall|hh: Seq<u64>, k: int|
                buckets(self.table).contains_key(hh) && 0 <= k < buckets(self.table)[hh].len() implies #[trigger] buckets(
                self.table,
            )[hh][k] < self.len() && bucket_of_key::<T>(self.key_at(buckets(self.table)[hh][k] as int)) == hh by {
                if hh != h {
                    assert(old_table[hh][k] == buckets(self.table)[hh][k]);
                } else if k < bucket@.len() - 1 {
                    assert(old_table[hh][k] == buckets(self.table)[hh][k]);
                }
            }
        }
        idx
    }
}

} // verus!
