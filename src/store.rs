use vstd::prelude::*;
use crate::error::{NodeError, NodeErrorType};
use crate::hash::{sha256_of, sha256_digest, bytes_equal, ArtifactHash};

verus! {

/// The abstract state of an artifact store: what is stored under each
/// digest, the space budget, and the space that stored content takes.
pub struct StoreView {
    pub contents: Map<Seq<u8>, Seq<u8>>,
    pub capacity: nat,
    pub used: nat,
}

impl StoreView {
    pub open spec fn available(self) -> nat {
        if self.used <= self.capacity {
            (self.capacity - self.used) as nat
        } else {
            0
        }
    }

    /// What `put` does once the digest of `content` is known to be `digest`:
    /// the state afterwards and the result.
    pub open spec fn put_with_digest(self, hash: Seq<u8>, content: Seq<u8>, digest: Seq<u8>) -> (
        StoreView,
        Result<bool, NodeError>,
    ) {
        if digest != hash {
            (self, Err(NodeError::of(NodeErrorType::IntegrityMismatch)))
        } else if self.contents.contains_key(hash) {
            (self, Ok(false))
        } else if content.len() > self.available() {
            (self, Err(NodeError::of(NodeErrorType::QuotaExceeded)))
        } else {
            (
                StoreView {
                    contents: self.contents.insert(hash, content),
                    used: self.used + content.len(),
                    ..self
                },
                Ok(true),
            )
        }
    }

    /// Storing `content` under `hash`, its digest recomputed with SHA-256.
    pub open spec fn put(self, hash: Seq<u8>, content: Seq<u8>) -> (StoreView, Result<bool, NodeError>) {
        self.put_with_digest(hash, content, sha256_of(content))
    }

    /// Reading what is stored under `hash`.
    pub open spec fn get(self, hash: Seq<u8>) -> Result<Seq<u8>, NodeError> {
        if self.contents.contains_key(hash) {
            Ok(self.contents[hash])
        } else {
            Err(NodeError::of(NodeErrorType::NotFoundLocally))
        }
    }
}

/// Storing content under its own SHA-256 digest and reading that digest back
/// gives the content exactly, provided the store does not already hold other
/// bytes with the same digest.
pub proof fn lemma_put_get_round_trip(s: StoreView, content: Seq<u8>)
    requires
        s.contents.contains_key(sha256_of(content)) ==> s.contents[sha256_of(content)] == content,
    ensures
        s.put(sha256_of(content), content).1 is Ok ==> s.put(sha256_of(content), content).0.get(
            sha256_of(content),
        ) == Ok::<Seq<u8>, NodeError>(content),
{
}

/// Content whose digest is not the claimed hash is rejected with
/// `IntegrityMismatch`, the store is left as it was, and so nothing becomes
/// readable under that hash.
pub proof fn lemma_put_mismatch_rejected(s: StoreView, hash: Seq<u8>, content: Seq<u8>)
    requires
        sha256_of(content) != hash,
    ensures
        s.put(hash, content) == (s, Err::<bool, NodeError>(NodeError::of(NodeErrorType::IntegrityMismatch))),
        !s.contents.contains_key(hash) ==> s.put(hash, content).0.get(hash) == Err::<Seq<u8>, NodeError>(
            NodeError::of(NodeErrorType::NotFoundLocally),
        ),
{
}

/// Putting the same content twice: the second call returns `false` and
/// changes nothing, the free space included.
pub proof fn lemma_put_idempotent(s: StoreView, hash: Seq<u8>, content: Seq<u8>)
    requires
        s.put(hash, content).1 is Ok,
    ensures
        s.put(hash, content).0.put(hash, content) == (s.put(hash, content).0, Ok::<bool, NodeError>(false)),
        s.put(hash, content).0.put(hash, content).0.available() == s.put(hash, content).0.available(),
{
}

/// Content larger than the free space, under a hash not yet stored, is
/// rejected with `QuotaExceeded` and the free space is unchanged.
pub proof fn lemma_put_over_quota(s: StoreView, hash: Seq<u8>, content: Seq<u8>)
    requires
        sha256_of(content) == hash,
        !s.contents.contains_key(hash),
        content.len() > s.available(),
    ensures
        s.put(hash, content) == (s, Err::<bool, NodeError>(NodeError::of(NodeErrorType::QuotaExceeded))),
        s.put(hash, content).0.available() == s.available(),
{
}

/// One stored artifact.
pub struct StoredArtifact {
    pub hash: ArtifactHash,
    pub content: Vec<u8>,
}

pub open spec fn contents_of(s: Seq<StoredArtifact>) -> Map<Seq<u8>, Seq<u8>>
    decreases s.len(),
{
    if s.len() == 0 {
        Map::empty()
    } else {
        contents_of(s.drop_last()).insert(s.last().hash@, s.last().content@)
    }
}

pub open spec fn size_of(s: Seq<StoredArtifact>) -> nat
    decreases s.len(),
{
    if s.len() == 0 {
        0
    } else {
        size_of(s.drop_last()) + s.last().content@.len()
    }
}

pub open spec fn keys_unique(s: Seq<StoredArtifact>) -> bool {
    forall|i: int, j: int| 0 <= i < j < s.len() ==> s[i].hash@ != s[j].hash@
}

proof fn lemma_contents_absent(s: Seq<StoredArtifact>, k: Seq<u8>)
    requires
        forall|i: int| 0 <= i < s.len() ==> s[i].hash@ != k,
    ensures
        !contents_of(s).contains_key(k),
    decreases s.len(),
{
    if s.len() > 0 {
        lemma_contents_absent(s.drop_last(), k);
    }
}

proof fn lemma_contents_at(s: Seq<StoredArtifact>, i: int)
    requires
        keys_unique(s),
        0 <= i < s.len(),
    ensures
        contents_of(s).contains_key(s[i].hash@),
        contents_of(s)[s[i].hash@] == s[i].content@,
    decreases s.len(),
{
    if i < s.len() - 1 {
        lemma_contents_at(s.drop_last(), i);
    }
}

proof fn lemma_contents_len(s: Seq<StoredArtifact>)
    requires
        keys_unique(s),
    ensures
        contents_of(s).dom().finite(),
        contents_of(s).dom().len() == s.len(),
    decreases s.len(),
{
    if s.len() > 0 {
        let p = s.drop_last();
        lemma_contents_len(p);
        lemma_contents_absent(p, s.last().hash@);
    }
}

/// A content-addressed artifact store with a space budget.
pub struct ArtifactStore {
    entries: Vec<StoredArtifact>,
    capacity: u64,
    used: u64,
}

impl View for ArtifactStore {
    type V = StoreView;

    closed spec fn view(&self) -> StoreView {
        StoreView {
            contents: contents_of(self.entries@),
            capacity: self.capacity as nat,
            used: self.used as nat,
        }
    }
}

impl ArtifactStore {
    /// The store's internal invariant: digests are unique, every stored
    /// content digests to its key, and the recorded usage is the total size,
    /// within the budget.
    pub closed spec fn wf(&self) -> bool {
        &&& keys_unique(self.entries@)
        &&& forall|i: int|
            0 <= i < self.entries@.len() ==> sha256_of(#[trigger] self.entries@[i].content@)
                == self.entries@[i].hash@
        &&& self.used as nat == size_of(self.entries@)
        &&& self.used <= self.capacity
    }

    /// Every stored content digests to the hash it is stored under.
    pub proof fn lemma_content_addressed(&self, h: Seq<u8>)
        requires
            self.wf(),
            self@.contents.contains_key(h),
        ensures
            sha256_of(self@.contents[h]) == h,
    {
        let s = self.entries@;
        if forall|i: int| 0 <= i < s.len() ==> s[i].hash@ != h {
            lemma_contents_absent(s, h);
        }
        let i = choose|i: int| 0 <= i < s.len() && s[i].hash@ == h;
        lemma_contents_at(s, i);
    }

    /// An empty store with a budget of `capacity` bytes.
    pub fn new(capacity: u64) -> (r: ArtifactStore)
        ensures
            r.wf(),
            r@.contents == Map::<Seq<u8>, Seq<u8>>::empty(),
            r@.capacity == capacity,
            r@.used == 0,
    {
        ArtifactStore { entries: Vec::new(), capacity, used: 0 }
    }

    fn find(&self, hash: &ArtifactHash) -> (r: Option<usize>)
        requires
            self.wf(),
        ensures
            r.is_none() ==> !self@.contents.contains_key(hash@),
            r.is_some() ==> r.unwrap() < self.entries@.len() && self@.contents.contains_key(hash@)
                && self.entries@[r.unwrap() as int].hash@ == hash@
                && self@.contents[hash@] == self.entries@[r.unwrap() as int].content@,
    {
        let mut i: usize = 0;
        while i < self.entries.len()
            invariant
                0 <= i <= self.entries@.len(),
                keys_unique(self.entries@),
                forall|j: int| 0 <= j < i ==> self.entries@[j].hash@ != hash@,
            decreases self.entries@.len() - i,
        {
            if bytes_equal(&self.entries[i].hash.digest, &hash.digest) {
                proof {
                    lemma_contents_at(self.entries@, i as int);
                }
                return Some(i);
            }
            i = i + 1;
        }
        proof {
            lemma_contents_absent(self.entries@, hash@);
        }
        None
    }

    /// The space budget that is still free.
    pub fn available_space(&self) -> (r: u64)
        requires
            self.wf(),
        ensures
            r == self@.available(),
    {
        self.capacity - self.used
    }

    /// The space budget.
    pub fn capacity(&self) -> (r: u64)
        ensures
            r == self@.capacity,
    {
        self.capacity
    }

    /// The space that stored content takes.
    pub fn used_space(&self) -> (r: u64)
        ensures
            r == self@.used,
    {
        self.used
    }

    /// How many artifacts the store holds.
    pub fn artifact_count(&self) -> (r: usize)
        requires
            self.wf(),
        ensures
            self@.contents.dom().finite(),
            r == self@.contents.dom().len(),
    {
        proof {
            lemma_contents_len(self.entries@);
        }
        self.entries.len()
    }

    /// Whether something is stored under `hash`.
    pub fn contains(&self, hash: &ArtifactHash) -> (r: bool)
        requires
            self.wf(),
        ensures
            r == self@.contents.contains_key(hash@),
    {
        self.find(hash).is_some()
    }

    /// The bytes stored under `hash`, or `NotFoundLocally`.
    pub fn get(&self, hash: &ArtifactHash) -> (r: Result<Vec<u8>, NodeError>)
        requires
            self.wf(),
        ensures
            match r {
                Ok(b) => self@.get(hash@) == Ok::<Seq<u8>, NodeError>(b@),
                Err(e) => self@.get(hash@) == Err::<Seq<u8>, NodeError>(e),
            },
    {
        match self.find(hash) {
            Some(i) => Ok(self.entries[i].content.clone()),
            None => Err(NodeError::new(NodeErrorType::NotFoundLocally)),
        }
    }

    /// Stores `content` under `hash`, given `digest`, the SHA-256 digest of
    /// `content`: rejects a digest other than `hash` with `IntegrityMismatch`,
    /// returns `false` without writing when `hash` is already stored, and
    /// rejects content larger than the free space with `QuotaExceeded`.
    /// Nothing changes on a rejection.
    pub fn put_with_digest(&mut self, hash: &ArtifactHash, content: Vec<u8>, digest: &Vec<u8>) -> (r: Result<bool, NodeError>)
        requires
            old(self).wf(),
            digest@ == sha256_of(content@),
        ensures
            final(self).wf(),
            (final(self)@, r) == old(self)@.put_with_digest(hash@, content@, digest@),
    {
        if !bytes_equal(digest, &hash.digest) {
            return Err(NodeError::new(NodeErrorType::IntegrityMismatch));
        }
        if self.find(hash).is_some() {
            return Ok(false);
        }
        let len = content.len();
        if len as u64 > self.capacity - self.used {
            return Err(NodeError::new(NodeErrorType::QuotaExceeded));
        }
        let ghost pre = self.entries@;
        proof {
            assert forall|i: int| 0 <= i < pre.len() implies pre[i].hash@ != hash@ by {
                if pre[i].hash@ == hash@ {
                    lemma_contents_at(pre, i);
                }
            }
        }
        let entry = StoredArtifact { hash: hash.copied(), content };
        self.entries.push(entry);
        self.used = self.used + len as u64;
        proof {
            assert(self.entries@.drop_last() =~= pre);
            assert forall|i: int| 0 <= i < self.entries@.len() implies sha256_of(
                #[trigger] self.entries@[i].content@,
            ) == self.entries@[i].hash@ by {
                if i < pre.len() {
                    assert(self.entries@[i] == pre[i]);
                }
            }
            assert(self@.contents =~= old(self)@.contents.insert(hash@, entry.content@));
        }
        Ok(true)
    }

    /// Stores `content` under `hash` after recomputing its SHA-256 digest.
    pub fn put(&mut self, hash: &ArtifactHash, content: Vec<u8>) -> (r: Result<bool, NodeError>)
        requires
            old(self).wf(),
        ensures
            final(self).wf(),
            (final(self)@, r) == old(self)@.put(hash@, content@),
    {
        let digest = sha256_digest(&content);
        self.put_with_digest(hash, content, &digest)
    }
}

} // verus!
