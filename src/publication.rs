use vstd::prelude::*;

verus! {

/// Whether two byte strings are the same.
pub fn same_bytes(a: &Vec<u8>, b: &Vec<u8>) -> (r: bool)
    ensures
        r == (a@ == b@),
{
    if a.len() != b.len() {
        return false;
    }
    let mut i: usize = 0;
    while i < a.len()
        invariant
            i <= a.len(),
            a.len() == b.len(),
            a@.subrange(0, i as int) == b@.subrange(0, i as int),
        decreases a.len() - i,
    {
        if a[i] != b[i] {
            assert(a@[i as int] != b@[i as int]);
            return false;
        }
        assert(a@.subrange(0, i + 1) =~= a@.subrange(0, i as int).push(a@[i as int]));
        assert(b@.subrange(0, i + 1) =~= b@.subrange(0, i as int).push(b@[i as int]));
        i += 1;
    }
    assert(a@ =~= a@.subrange(0, a.len() as int));
    assert(b@ =~= b@.subrange(0, b.len() as int));
    true
}

/// Copies a byte string.
pub fn copy_bytes(v: &Vec<u8>) -> (r: Vec<u8>)
    ensures
        r@ == v@,
{
    let mut r: Vec<u8> = Vec::new();
    let mut i: usize = 0;
    while i < v.len()
        invariant
            i <= v.len(),
            r@ == v@.subrange(0, i as int),
        decreases v.len() - i,
    {
        r.push(v[i]);
        i += 1;
    }
    assert(r@ =~= v@);
    r
}

/// A published object as the repository knows it: its URI and the hash of
/// its content.
pub struct ObjModel {
    pub uri: Seq<char>,
    pub hash: Seq<u8>,
}

pub struct PublishedObject {
    pub uri: String,
    pub hash: Vec<u8>,
}

impl View for PublishedObject {
    type V = ObjModel;

    open spec fn view(&self) -> ObjModel {
        ObjModel { uri: self.uri@, hash: self.hash@ }
    }
}

/// One element of a publication delta.
pub enum PublishElement {
    /// Publish a new object.
    Publish { uri: String, hash: Vec<u8> },
    /// Replace an object whose current content has hash `old_hash`.
    Update { uri: String, old_hash: Vec<u8>, hash: Vec<u8> },
    /// Withdraw an object whose current content has hash `old_hash`.
    Withdraw { uri: String, old_hash: Vec<u8> },
}

/// Why a publication delta was rejected.
#[derive(Clone, Copy, Debug, PartialEq, Eq, Structural)]
pub enum PublicationError {
    /// A published object already has the URI.
    ObjectAlreadyPresent,
    /// No published object has the URI.
    NoObjectPresent,
    /// The named hash is not that of the current object.
    HashMismatch,
    /// The manifest or CRL number cannot grow further.
    NumbersExhausted,
}

pub open spec fn has_uri(objs: Seq<ObjModel>, uri: Seq<char>) -> bool {
    exists|i: int| 0 <= i < objs.len() && (#[trigger] objs[i]).uri == uri
}

/// The position of the object with the URI, where there is one.
pub open spec fn uri_index(objs: Seq<ObjModel>, uri: Seq<char>) -> int {
    choose|i: int| 0 <= i < objs.len() && (#[trigger] objs[i]).uri == uri
}

pub open spec fn uris_unique(objs: Seq<ObjModel>) -> bool {
    forall|i: int, j: int|
        0 <= i < j < objs.len() ==> (#[trigger] objs[i]).uri != (#[trigger] objs[j]).uri
}

/// The objects after one element, or why it is rejected.
pub open spec fn apply_element(objs: Seq<ObjModel>, el: PublishElement) -> Result<
    Seq<ObjModel>,
    PublicationError,
> {
    match el {
        PublishElement::Publish { uri, hash } => if has_uri(objs, uri@) {
            Err(PublicationError::ObjectAlreadyPresent)
        } else {
            Ok(objs.push(ObjModel { uri: uri@, hash: hash@ }))
        },
        PublishElement::Update { uri, old_hash, hash } => if !has_uri(objs, uri@) {
            Err(PublicationError::NoObjectPresent)
        } else if objs[uri_index(objs, uri@)].hash != old_hash@ {
            Err(PublicationError::HashMismatch)
        } else {
            Ok(objs.update(uri_index(objs, uri@), ObjModel { uri: uri@, hash: hash@ }))
        },
        PublishElement::Withdraw { uri, old_hash } => if !has_uri(objs, uri@) {
            Err(PublicationError::NoObjectPresent)
        } else if objs[uri_index(objs, uri@)].hash != old_hash@ {
            Err(PublicationError::HashMismatch)
        } else {
            Ok(objs.remove(uri_index(objs, uri@)))
        },
    }
}

/// The objects after all elements in order, or the first rejection.
pub open spec fn apply_elements(objs: Seq<ObjModel>, delta: Seq<PublishElement>) -> Result<
    Seq<ObjModel>,
    PublicationError,
>
    decreases delta.len(),
{
    if delta.len() == 0 {
        Ok(objs)
    } else {
        match apply_elements(objs, delta.drop_last()) {
            Ok(o) => apply_element(o, delta.last()),
            Err(e) => Err(e),
        }
    }
}

/// The repository: its objects, and the numbers of the manifest and CRL that
/// list them.
pub struct RepoModel {
    pub objects: Seq<ObjModel>,
    pub manifest_number: u64,
    pub crl_number: u64,
}

/// The repository after a delta, or why the delta is rejected. An accepted
/// delta re-issues the manifest and the CRL with the next numbers.
pub open spec fn delta_outcome(s: RepoModel, delta: Seq<PublishElement>) -> Result<
    RepoModel,
    PublicationError,
> {
    if s.manifest_number == u64::MAX || s.crl_number == u64::MAX {
        Err(PublicationError::NumbersExhausted)
    } else {
        match apply_elements(s.objects, delta) {
            Ok(objects) => Ok(
                RepoModel {
                    objects,
                    manifest_number: (s.manifest_number + 1) as u64,
                    crl_number: (s.crl_number + 1) as u64,
                },
            ),
            Err(e) => Err(e),
        }
    }
}

/// A delta that updates or withdraws an existing object under a stale hash
/// is rejected, so the repository, its manifest and its CRL stay as they are.
pub proof fn law_stale_hash_rejected(
    s: RepoModel,
    uri: String,
    stale: Vec<u8>,
    hash: Vec<u8>,
)
    requires
        s.manifest_number < u64::MAX,
        s.crl_number < u64::MAX,
        has_uri(s.objects, uri@),
        s.objects[uri_index(s.objects, uri@)].hash != stale@,
    ensures
        delta_outcome(s, seq![PublishElement::Update { uri, old_hash: stale, hash }])
            == Err::<RepoModel, PublicationError>(PublicationError::HashMismatch),
        delta_outcome(s, seq![PublishElement::Withdraw { uri, old_hash: stale }])
            == Err::<RepoModel, PublicationError>(PublicationError::HashMismatch),
{
    let u = seq![PublishElement::Update { uri, old_hash: stale, hash }];
    let w = seq![PublishElement::Withdraw { uri, old_hash: stale }];
    assert(u.drop_last() =~= Seq::<PublishElement>::empty());
    assert(w.drop_last() =~= Seq::<PublishElement>::empty());
    assert(apply_elements(s.objects, u.drop_last()) == Ok::<Seq<ObjModel>, PublicationError>(s.objects));
    assert(apply_elements(s.objects, w.drop_last()) == Ok::<Seq<ObjModel>, PublicationError>(s.objects));
}

pub open spec fn objects_view(v: Seq<PublishedObject>) -> Seq<ObjModel> {
    v.map_values(|o: PublishedObject| o@)
}

/// A publication repository.
pub struct Repository {
    pub objects: Vec<PublishedObject>,
    pub manifest_number: u64,
    pub crl_number: u64,
}

impl View for Repository {
    type V = RepoModel;

    open spec fn view(&self) -> RepoModel {
        RepoModel {
            objects: objects_view(self.objects@),
            manifest_number: self.manifest_number,
            crl_number: self.crl_number,
        }
    }
}

/// Finds the object with the URI.
fn find_uri(objs: &Vec<PublishedObject>, uri: &String) -> (r: Option<usize>)
    requires
        uris_unique(objects_view(objs@)),
    ensures
        match r {
            Some(i) => i < objs@.len() && has_uri(objects_view(objs@), uri@) && uri_index(
                objects_view(objs@),
                uri@,
            ) == i,
            None => !has_uri(objects_view(objs@), uri@),
        },
{
    let ghost v = objects_view(objs@);
    let mut i: usize = 0;
    while i < objs.len()
        invariant
            i <= objs.len(),
            v == objects_view(objs@),
            uris_unique(v),
            forall|j: int| 0 <= j < i ==> (#[trigger] v[j]).uri != uri@,
        decreases objs.len() - i,
    {
        if objs[i].uri.eq(uri) {
            assert(v[i as int].uri == uri@);
            assert(has_uri(v, uri@));
            let ghost k = uri_index(v, uri@);
            assert(0 <= k < v.len() && v[k].uri == uri@);
            assert(k == i) by {
                if k != i {
                    if k < i {
                        assert(v[k].uri != uri@);
                    } else {
                        assert(v[i as int].uri != v[k].uri);
                    }
                }
            }
            return Some(i);
        }
        i += 1;
    }
    None
}

/// Copies an object.
fn copy_object(o: &PublishedObject) -> (r: PublishedObject)
    ensures
        r@ == o@,
{
    PublishedObject { uri: o.uri.clone(), hash: copy_bytes(&o.hash) }
}

impl Repository {
    pub open spec fn wf(&self) -> bool {
        uris_unique(self@.objects)
    }

    /// An empty repository.
    pub fn new() -> (r: Repository)
        ensures
            r.wf(),
            r@.objects.len() == 0,
            r@.manifest_number == 1,
            r@.crl_number == 1,
    {
        let r = Repository { objects: Vec::new(), manifest_number: 1, crl_number: 1 };
        assert(r@.objects =~= Seq::<ObjModel>::empty());
        r
    }

    /// Applies one element to a working copy of the objects.
    fn apply_one(objs: &mut Vec<PublishedObject>, el: &PublishElement) -> (r: Result<(), PublicationError>)
        requires
            uris_unique(objects_view(old(objs)@)),
        ensures
            match (r, apply_element(objects_view(old(objs)@), *el)) {
                (Ok(()), Ok(o)) => objects_view(final(objs)@) == o && uris_unique(o),
                (Err(e), Err(m)) => e == m,
                _ => false,
            },
    {
        let ghost v = objects_view(objs@);
        match el {
            PublishElement::Publish { uri, hash } => {
                if find_uri(objs, uri).is_some() {
                    return Err(PublicationError::ObjectAlreadyPresent);
                }
                let o = PublishedObject { uri: uri.clone(), hash: copy_bytes(hash) };
                objs.push(o);
                assert(objects_view(objs@) =~= v.push(o@));
                assert forall|a: int, b: int|
                    0 <= a < b < objects_view(objs@).len() implies (#[trigger] objects_view(objs@)[a]).uri
                    != (#[trigger] objects_view(objs@)[b]).uri by {
                    if b == v.len() {
                        assert(objects_view(objs@)[a] == v[a]);
                    } else {
                        assert(objects_view(objs@)[a] == v[a]);
                        assert(objects_view(objs@)[b] == v[b]);
                    }
                }
                Ok(())
            },
            PublishElement::Update { uri, old_hash, hash } => {
                match find_uri(objs, uri) {
                    None => Err(PublicationError::NoObjectPresent),
                    Some(i) => {
                        assert(v[i as int] == objs@[i as int]@);
                        if !same_bytes(&objs[i].hash, old_hash) {
                            return Err(PublicationError::HashMismatch);
                        }
                        let o = PublishedObject { uri: uri.clone(), hash: copy_bytes(hash) };
                        objs.set(i, o);
                        assert(objects_view(objs@) =~= v.update(i as int, o@));
                        assert forall|a: int, b: int|
                            0 <= a < b < objects_view(objs@).len() implies (#[trigger] objects_view(
                            objs@,
                        )[a]).uri != (#[trigger] objects_view(objs@)[b]).uri by {
                            assert(objects_view(objs@)[a].uri == v[a].uri);
                            assert(objects_view(objs@)[b].uri == v[b].uri);
                        }
                        Ok(())
                    },
                }
            },
            PublishElement::Withdraw { uri, old_hash } => {
                match find_uri(objs, uri) {
                    None => Err(PublicationError::NoObjectPresent),
                    Some(i) => {
                        assert(v[i as int] == objs@[i as int]@);
                        if !same_bytes(&objs[i].hash, old_hash) {
                            return Err(PublicationError::HashMismatch);
                        }
                        objs.remove(i);
                        assert(objects_view(objs@) =~= v.remove(i as int));
                        assert forall|a: int, b: int|
                            0 <= a < b < objects_view(objs@).len() implies (#[trigger] objects_view(
                            objs@,
                        )[a]).uri != (#[trigger] objects_view(objs@)[b]).uri by {
                            let a0 = if a < i { a } else { a + 1 };
                            let b0 = if b < i { b } else { b + 1 };
                            assert(objects_view(objs@)[a] == v[a0]);
                            assert(objects_view(objs@)[b] == v[b0]);
                        }
                        Ok(())
                    },
                }
            },
        }
    }

    /// Applies a delta as one unit: either every element is applied and the
    /// manifest and CRL are re-issued, or nothing changes.
    pub fn apply_delta(&mut self, delta: &Vec<PublishElement>) -> (r: Result<(), PublicationError>)
        requires
            old(self).wf(),
        ensures
            final(self).wf(),
            match (r, delta_outcome(old(self)@, delta@)) {
                (Ok(()), Ok(s)) => final(self)@ == s,
                (Err(e), Err(m)) => e == m && final(self)@ == old(self)@,
                _ => false,
            },
    {
        if self.manifest_number == u64::MAX || self.crl_number == u64::MAX {
            return Err(PublicationError::NumbersExhausted);
        }
        let mut work: Vec<PublishedObject> = Vec::new();
        let mut k: usize = 0;
        while k < self.objects.len()
            invariant
                k <= self.objects.len(),
                objects_view(work@) == objects_view(self.objects@.subrange(0, k as int)),
                self@ == old(self)@,
            decreases self.objects.len() - k,
        {
            let ghost pre = work@;
            work.push(copy_object(&self.objects[k]));
            assert(objects_view(work@) =~= objects_view(pre).push(self.objects@[k as int]@));
            assert(objects_view(self.objects@.subrange(0, k + 1)) =~= objects_view(
                self.objects@.subrange(0, k as int),
            ).push(self.objects@[k as int]@));
            k += 1;
        }
        assert(self.objects@ =~= self.objects@.subrange(0, self.objects.len() as int));
        let ghost start = self@.objects;
        let mut i: usize = 0;
        while i < delta.len()
            invariant
                i <= delta.len(),
                apply_elements(start, delta@.subrange(0, i as int)) == Ok::<
                    Seq<ObjModel>,
                    PublicationError,
                >(objects_view(work@)),
                uris_unique(objects_view(work@)),
                self@ == old(self)@,
                self.wf(),
                start == self@.objects,
                self.manifest_number < u64::MAX,
                self.crl_number < u64::MAX,
            decreases delta.len() - i,
        {
            assert(delta@.subrange(0, i + 1).drop_last() =~= delta@.subrange(0, i as int));
            match Self::apply_one(&mut work, &delta[i]) {
                Ok(()) => {},
                Err(e) => {
                    proof {
                        lemma_error_persists(start, delta@, i as int + 1);
                    }
                    return Err(e);
                },
            }
            i += 1;
        }
        assert(delta@ =~= delta@.subrange(0, delta.len() as int));
        self.objects = work;
        self.manifest_number = self.manifest_number + 1;
        self.crl_number = self.crl_number + 1;
        Ok(())
    }
}

/// A rejection by a prefix of a delta is the rejection of the whole delta.
proof fn lemma_error_persists(objs: Seq<ObjModel>, delta: Seq<PublishElement>, n: int)
    requires
        0 <= n <= delta.len(),
        apply_elements(objs, delta.subrange(0, n)) is Err,
    ensures
        apply_elements(objs, delta) == apply_elements(objs, delta.subrange(0, n)),
    decreases delta.len() - n,
{
    if n < delta.len() {
        assert(delta.subrange(0, n + 1).drop_last() =~= delta.subrange(0, n));
        lemma_error_persists(objs, delta, n + 1);
    } else {
        assert(delta.subrange(0, n) =~= delta);
    }
}

} // verus!
