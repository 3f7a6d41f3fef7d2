//! Object placement: `{root}/{shard}/{object}` paths built from validated
//! single path segments.

use vstd::prelude::*;

use crate::ids::{is_uuid_text, new_object_key};

verus! {

/// Why a name was refused as a single path segment.
#[derive(Debug, Clone, Copy, PartialEq, Eq, Structural)]
pub enum SegmentError {
    Empty,
    HasSeparator,
    DotName,
}

/// Which of the two names of a placement a refusal is about.
#[derive(Debug, Clone, Copy, PartialEq, Eq, Structural)]
pub enum SegmentRole {
    Shard,
    Object,
}

/// Errors of the placement layer.
#[derive(Debug, Clone, Copy, PartialEq, Eq, Structural)]
pub enum StorageError {
    /// A shard key or object key is not a single path segment.
    InvalidSegment { role: SegmentRole, reason: SegmentError },
    /// The byte count of a write no longer fits in an `i64`.
    SizeOverflow,
}

pub open spec fn is_separator(c: char) -> bool {
    c == '/' || c == '\\'
}

pub open spec fn has_separator(s: Seq<char>) -> bool {
    exists|i: int| 0 <= i < s.len() && is_separator(#[trigger] s[i])
}

pub open spec fn is_dot_name(s: Seq<char>) -> bool {
    s == seq!['.'] || s == seq!['.', '.']
}

/// The first rule that `s` breaks as a path segment, if any.
pub open spec fn segment_fault(s: Seq<char>) -> Option<SegmentError> {
    if s.len() == 0 {
        Some(SegmentError::Empty)
    } else if has_separator(s) {
        Some(SegmentError::HasSeparator)
    } else if is_dot_name(s) {
        Some(SegmentError::DotName)
    } else {
        None
    }
}

pub open spec fn is_segment(s: Seq<char>) -> bool {
    segment_fault(s) is None
}

/// `base` joined with one more segment, with a single `/` between them.
pub open spec fn join_spec(base: Seq<char>, seg: Seq<char>) -> Seq<char> {
    if base.len() == 0 {
        seg
    } else if base.last() == '/' {
        base + seg
    } else {
        base + seq!['/'] + seg
    }
}

pub open spec fn check_spec(role: SegmentRole, s: Seq<char>) -> Result<(), StorageError> {
    match segment_fault(s) {
        Some(reason) => Err(StorageError::InvalidSegment { role, reason }),
        None => Ok(()),
    }
}

/// Appends one segment to a path, as `Path::join` does for a relative segment.
pub fn join_path(base: &str, seg: &str) -> (r: String)
    ensures
        r@ == join_spec(base@, seg@),
{
    let n = base.unicode_len();
    let mut r = base.to_owned();
    if n > 0 && base.get_char(n - 1) != '/' {
        r.append("/");
        proof {
            reveal_strlit("/");
        }
    }
    r.append(seg);
    r
}

/// Where `object` is placed on shard `shard` under `root`, or the first
/// refusal: the shard key is checked before the object key.
pub open spec fn resolve_spec(root: Seq<char>, shard: Seq<char>, object: Seq<char>) -> Result<
    Seq<char>,
    StorageError,
> {
    match check_spec(SegmentRole::Shard, shard) {
        Err(e) => Err(e),
        Ok(_) => match check_spec(SegmentRole::Object, object) {
            Err(e) => Err(e),
            Ok(_) => Ok(join_spec(join_spec(root, shard), object)),
        },
    }
}

/// The name of the temporary file that an upload of `object` is written to
/// before it is renamed into place.
pub open spec fn temp_name_spec(object: Seq<char>, nonce: Seq<char>) -> Seq<char> {
    object + seq!['.'] + nonce + seq!['.', 'p', 'a', 'r', 't']
}

/// Settings of the object-serving process.
#[derive(Clone, Debug)]
pub struct ServerConfig {
    pub storage_root: String,
    pub addr: String,
    pub device_cache_ttl_secs: u64,
}

/// Placement of objects under one storage root.
#[derive(Clone, Debug)]
pub struct StorageImpl {
    root: String,
}

impl StorageImpl {
    pub closed spec fn root_spec(&self) -> Seq<char> {
        self.root@
    }

    pub fn new(root: String) -> (r: Self)
        ensures
            r.root_spec() == root@,
    {
        StorageImpl { root }
    }

    pub fn root(&self) -> (r: &str)
        ensures
            r@ == self.root_spec(),
    {
        self.root.as_str()
    }

    /// Accepts `segment` only if it is a single, non-empty path segment that
    /// names neither the current nor the parent directory.
    pub fn ensure_segment(segment: &str, role: SegmentRole) -> (r: Result<(), StorageError>)
        ensures
            r == check_spec(role, segment@),
    {
        let n = segment.unicode_len();
        if n == 0 {
            return Err(StorageError::InvalidSegment { role, reason: SegmentError::Empty });
        }
        let mut i: usize = 0;
        while i < n
            invariant
                n == segment@.len(),
                0 <= i <= n,
                forall|j: int| 0 <= j < i ==> !is_separator(#[trigger] segment@[j]),
            decreases n - i,
        {
            let c = segment.get_char(i);
            if c == '/' || c == '\\' {
                return Err(StorageError::InvalidSegment { role, reason: SegmentError::HasSeparator });
            }
            i += 1;
        }
        let dot = n <= 2 && segment.get_char(0) == '.' && (n == 1 || segment.get_char(1) == '.');
        if dot {
            assert(segment@ =~= seq!['.'] || segment@ =~= seq!['.', '.']);
            return Err(StorageError::InvalidSegment { role, reason: SegmentError::DotName });
        }
        assert(!is_dot_name(segment@)) by {
            if segment@ == seq!['.'] || segment@ == seq!['.', '.'] {
                assert(segment@[0] == '.');
            }
        }
        Ok(())
    }

    /// The absolute path of `object_key` on shard `device_uuid`.
    pub fn resolve_path(&self, device_uuid: &str, object_key: &str) -> (r: Result<String, StorageError>)
        ensures
            match r {
                Ok(p) => resolve_spec(self.root_spec(), device_uuid@, object_key@) == Ok::<
                    Seq<char>,
                    StorageError,
                >(p@),
                Err(e) => resolve_spec(self.root_spec(), device_uuid@, object_key@) == Err::<
                    Seq<char>,
                    StorageError,
                >(e),
            },
    {
        Self::ensure_segment(device_uuid, SegmentRole::Shard)?;
        Self::ensure_segment(object_key, SegmentRole::Object)?;
        let dir = join_path(self.root.as_str(), device_uuid);
        Ok(join_path(dir.as_str(), object_key))
    }

    /// Starts a write of `object_key` on shard `device_uuid`: the bytes go to a
    /// temporary file named after `nonce` in the directory of the final path,
    /// so that the final path is only ever reached by a rename.
    pub fn begin_write(&self, device_uuid: &str, object_key: &str, nonce: &str) -> (r: Result<
        WriteSession,
        StorageError,
    >)
        ensures
            match r {
                Ok(s) => {
                    &&& resolve_spec(self.root_spec(), device_uuid@, object_key@) is Ok
                    &&& s.dir_spec() == join_spec(self.root_spec(), device_uuid@)
                    &&& s.final_path_spec() == join_spec(s.dir_spec(), object_key@)
                    &&& s.final_path_spec() == resolve_spec(
                        self.root_spec(),
                        device_uuid@,
                        object_key@,
                    )->Ok_0
                    &&& s.temp_path_spec() == join_spec(
                        s.dir_spec(),
                        temp_name_spec(object_key@, nonce@),
                    )
                    &&& s.total_spec() == 0
                },
                Err(e) => resolve_spec(self.root_spec(), device_uuid@, object_key@) == Err::<
                    Seq<char>,
                    StorageError,
                >(e),
            },
    {
        Self::ensure_segment(device_uuid, SegmentRole::Shard)?;
        Self::ensure_segment(object_key, SegmentRole::Object)?;
        let dir = join_path(self.root.as_str(), device_uuid);
        let final_path = join_path(dir.as_str(), object_key);
        let mut name = object_key.to_owned();
        name.append(".");
        name.append(nonce);
        name.append(".part");
        proof {
            reveal_strlit(".");
            reveal_strlit(".part");
            assert(name@ =~= temp_name_spec(object_key@, nonce@));
        }
        let temp_path = join_path(dir.as_str(), name.as_str());
        Ok(WriteSession { dir, final_path, temp_path, total: 0 })
    }
}

impl StorageImpl {
    /// Starts a write of `object_key` on shard `device_uuid` with a fresh
    /// random tag for the temporary file.
    pub fn begin_write_fresh(&self, device_uuid: &str, object_key: &str) -> (r: Result<
        WriteSession,
        StorageError,
    >)
        ensures
            match r {
                Ok(s) => {
                    &&& resolve_spec(self.root_spec(), device_uuid@, object_key@) is Ok
                    &&& s.dir_spec() == join_spec(self.root_spec(), device_uuid@)
                    &&& s.final_path_spec() == join_spec(s.dir_spec(), object_key@)
                    &&& s.final_path_spec() == resolve_spec(
                        self.root_spec(),
                        device_uuid@,
                        object_key@,
                    )->Ok_0
                    &&& exists|tag: Seq<char>|
                        is_uuid_text(tag) && s.temp_path_spec() == join_spec(
                            s.dir_spec(),
                            #[trigger] temp_name_spec(object_key@, tag),
                        )
                    &&& s.total_spec() == 0
                },
                Err(e) => resolve_spec(self.root_spec(), device_uuid@, object_key@) == Err::<
                    Seq<char>,
                    StorageError,
                >(e),
            },
    {
        let tag = new_object_key();
        self.begin_write(device_uuid, object_key, tag.as_str())
    }

    /// Starts the upload of a new object to shard `device_uuid`: draws a
    /// fresh object key and opens a write of it. Fails exactly when
    /// `device_uuid` is not a single path segment.
    pub fn begin_upload(&self, device_uuid: &str) -> (r: Result<(String, WriteSession), StorageError>)
        ensures
            match r {
                Ok((key, s)) => {
                    &&& is_segment(device_uuid@)
                    &&& is_uuid_text(key@)
                    &&& is_segment(key@)
                    &&& s.dir_spec() == join_spec(self.root_spec(), device_uuid@)
                    &&& s.final_path_spec() == join_spec(s.dir_spec(), key@)
                    &&& exists|tag: Seq<char>|
                        is_uuid_text(tag) && s.temp_path_spec() == join_spec(
                            s.dir_spec(),
                            #[trigger] temp_name_spec(key@, tag),
                        )
                    &&& s.total_spec() == 0
                },
                Err(e) => check_spec(SegmentRole::Shard, device_uuid@) == Err::<(), StorageError>(e),
            },
    {
        let key = new_object_key();
        match self.begin_write_fresh(device_uuid, key.as_str()) {
            Ok(s) => Ok((key, s)),
            Err(e) => {
                assert(check_spec(SegmentRole::Object, key@) is Ok);
                Err(e)
            },
        }
    }
}

/// No traversal: an empty name, a name holding a separator, `.` or `..`,
/// as shard key or as object key, is refused before any path is built.
pub proof fn lemma_resolve_rejects_traversal(root: Seq<char>, shard: Seq<char>, object: Seq<char>)
    requires
        !is_segment(shard) || !is_segment(object),
    ensures
        resolve_spec(root, shard, object) is Err,
{
}

/// The bytes of a write never go to the final path itself: the temporary
/// file that receives them lies in the directory of the final path, under
/// another name, so the final path is only reached by a rename within one
/// directory.
pub proof fn lemma_temp_beside_final(dir: Seq<char>, object: Seq<char>, nonce: Seq<char>)
    ensures
        join_spec(dir, temp_name_spec(object, nonce)) != join_spec(dir, object),
        join_spec(dir, temp_name_spec(object, nonce)).len() - temp_name_spec(object, nonce).len()
            == join_spec(dir, object).len() - object.len(),
        join_spec(dir, temp_name_spec(object, nonce)).subrange(
            0,
            join_spec(dir, object).len() - object.len(),
        ) == join_spec(dir, object).subrange(0, join_spec(dir, object).len() - object.len()),
{
    let t = temp_name_spec(object, nonce);
    assert(t.len() > object.len());
    let p = join_spec(dir, object);
    let q = join_spec(dir, t);
    let k = p.len() - object.len();
    if dir.len() == 0 {
        assert(q.subrange(0, k) =~= p.subrange(0, k));
    } else if dir.last() == '/' {
        assert(q.subrange(0, k) =~= dir);
        assert(p.subrange(0, k) =~= dir);
    } else {
        assert(q.subrange(0, k) =~= dir + seq!['/']);
        assert(p.subrange(0, k) =~= dir + seq!['/']);
    }
}

/// One object being written: where its bytes go first, where they end up,
/// and how many have been written so far.
#[derive(Debug)]
pub struct WriteSession {
    dir: String,
    final_path: String,
    temp_path: String,
    total: i64,
}

impl WriteSession {
    #[verifier::type_invariant]
    spec fn count_is_natural(&self) -> bool {
        self.total >= 0
    }

    pub closed spec fn dir_spec(&self) -> Seq<char> {
        self.dir@
    }

    pub closed spec fn final_path_spec(&self) -> Seq<char> {
        self.final_path@
    }

    pub closed spec fn temp_path_spec(&self) -> Seq<char> {
        self.temp_path@
    }

    pub closed spec fn total_spec(&self) -> int {
        self.total as int
    }

    /// The directory that both the temporary and the final file live in.
    pub fn dir(&self) -> (r: &str)
        ensures
            r@ == self.dir_spec(),
    {
        self.dir.as_str()
    }

    pub fn final_path(&self) -> (r: &str)
        ensures
            r@ == self.final_path_spec(),
    {
        self.final_path.as_str()
    }

    pub fn temp_path(&self) -> (r: &str)
        ensures
            r@ == self.temp_path_spec(),
    {
        self.temp_path.as_str()
    }

    pub fn total(&self) -> (r: i64)
        ensures
            r as int == self.total_spec(),
    {
        self.total
    }

    /// Counts a chunk of `n` bytes that was written to the temporary file.
    pub fn record_chunk(&mut self, n: usize) -> (r: Result<(), StorageError>)
        ensures
            final(self).dir_spec() == old(self).dir_spec(),
            final(self).final_path_spec() == old(self).final_path_spec(),
            final(self).temp_path_spec() == old(self).temp_path_spec(),
            old(self).total_spec() + n <= i64::MAX ==> r is Ok && final(self).total_spec()
                == old(self).total_spec() + n,
            old(self).total_spec() + n > i64::MAX ==> r == Err::<(), StorageError>(
                StorageError::SizeOverflow,
            ) && final(self).total_spec() == old(self).total_spec(),
    {
        proof {
            use_type_invariant(&*self);
        }
        if (n as u64) <= (i64::MAX as u64) - (self.total as u64) {
            self.total = self.total + n as i64;
            Ok(())
        } else {
            Err(StorageError::SizeOverflow)
        }
    }

    /// Ends the write once the temporary file has been renamed to the final
    /// path: that path and the exact number of bytes written.
    pub fn finish(self) -> (r: (String, i64))
        ensures
            r.0@ == self.final_path_spec(),
            r.1 as int == self.total_spec(),
    {
        (self.final_path, self.total)
    }
}

} // verus!
