//! Safe path resolution.
//!
//! A client-supplied relative name is split on `/` into segments; empty
//! segments (which also cover absolute-root markers and doubled separators),
//! current-directory segments (`.`) and parent-directory segments (`..`) are
//! dropped — upward traversal is disallowed outright, not clamped. The kept
//! segments are appended under a root path. The caller reports, for each
//! accumulated prefix of the result, whether that prefix is a symbolic link
//! on the real filesystem; any symbolic link anywhere in the chain makes
//! resolution fail closed.

use core::marker::PhantomData;
use crate::AppSettings;
use vstd::prelude::*;

verus! {

/// A segment of a relative name survives filtering when it is non-empty and
/// is neither the current-directory marker `.` nor the parent-directory
/// marker `..`.
pub open spec fn keep_segment(seg: Seq<char>) -> bool {
    &&& seg.len() > 0
    &&& !(seg.len() == 1 && seg[0] == '.')
    &&& !(seg.len() == 2 && seg[0] == '.' && seg[1] == '.')
}

/// Segments of `s` up to the next separator, accumulated into `cur`.
pub open spec fn parse_rel_rec(s: Seq<char>, cur: Seq<char>) -> Seq<Seq<char>>
    decreases s.len(),
{
    if s.len() == 0 {
        if keep_segment(cur) {
            seq![cur]
        } else {
            Seq::empty()
        }
    } else if s[0] == '/' {
        if keep_segment(cur) {
            seq![cur] + parse_rel_rec(s.drop_first(), Seq::empty())
        } else {
            parse_rel_rec(s.drop_first(), Seq::empty())
        }
    } else {
        parse_rel_rec(s.drop_first(), cur.push(s[0]))
    }
}

/// The kept segments of a relative name, in order.
pub open spec fn parse_rel(s: Seq<char>) -> Seq<Seq<char>> {
    parse_rel_rec(s, Seq::empty())
}

/// `root` extended by one separator and one segment per component.
pub open spec fn join_under(root: Seq<char>, comps: Seq<Seq<char>>) -> Seq<char>
    decreases comps.len(),
{
    if comps.len() == 0 {
        root
    } else {
        join_under(root + seq!['/'] + comps[0], comps.drop_first())
    }
}

/// `p` is `root` itself or lies strictly below it: `root` is a prefix and
/// the first character after it is a separator.
pub open spec fn within_root(p: Seq<char>, root: Seq<char>) -> bool {
    &&& p.len() >= root.len()
    &&& p.subrange(0, root.len() as int) == root
    &&& (p.len() == root.len() || p[root.len() as int] == '/')
}

/// A component that resolution may append: kept by the filter and free of
/// separators.
pub open spec fn safe_component(c: Seq<char>) -> bool {
    keep_segment(c) && forall|k: int| 0 <= k < c.len() ==> c[k] != '/'
}

proof fn lemma_parse_rec_components(s: Seq<char>, cur: Seq<char>)
    requires
        forall|k: int| 0 <= k < cur.len() ==> cur[k] != '/',
    ensures
        forall|i: int|
            0 <= i < parse_rel_rec(s, cur).len() ==> safe_component(
                #[trigger] parse_rel_rec(s, cur)[i],
            ),
    decreases s.len(),
{
    let r = parse_rel_rec(s, cur);
    if s.len() == 0 {
        if keep_segment(cur) {
            assert(r == seq![cur]);
            assert forall|i: int| 0 <= i < r.len() implies safe_component(r[i]) by {
                assert(r[i] == cur);
                assert(safe_component(cur));
            }
        }
    } else if s[0] == '/' {
        lemma_parse_rec_components(s.drop_first(), Seq::empty());
        let rr = parse_rel_rec(s.drop_first(), Seq::empty());
        if keep_segment(cur) {
            assert(r == seq![cur] + rr);
            assert forall|i: int| 0 <= i < r.len() implies safe_component(r[i]) by {
                if i == 0 {
                    assert(r[i] == cur);
                    assert(safe_component(cur));
                } else {
                    assert(r[i] == rr[i - 1]);
                    assert(safe_component(rr[i - 1]));
                }
            }
        } else {
            assert(r == rr);
            assert forall|i: int| 0 <= i < r.len() implies safe_component(r[i]) by {
                assert(r[i] == rr[i]);
                assert(safe_component(rr[i]));
            }
        }
    } else {
        assert(forall|k: int| 0 <= k < cur.push(s[0]).len() ==> cur.push(s[0])[k] != '/');
        lemma_parse_rec_components(s.drop_first(), cur.push(s[0]));
        let rr = parse_rel_rec(s.drop_first(), cur.push(s[0]));
        assert(r == rr);
        assert forall|i: int| 0 <= i < r.len() implies safe_component(r[i]) by {
            assert(r[i] == rr[i]);
            assert(safe_component(rr[i]));
        }
    }
}

/// No parent-directory segment, and no separator, occurs in any component
/// that resolution keeps.
pub proof fn lemma_parse_components_are_safe(name: Seq<char>)
    ensures
        forall|i: int|
            0 <= i < parse_rel(name).len() ==> safe_component(#[trigger] parse_rel(name)[i]),
{
    lemma_parse_rec_components(name, Seq::empty());
}

/// Joining under a root keeps the root as a strict prefix.
pub proof fn lemma_join_within_root(root: Seq<char>, comps: Seq<Seq<char>>)
    ensures
        within_root(join_under(root, comps), root),
    decreases comps.len(),
{
    if comps.len() == 0 {
        assert(root.subrange(0, root.len() as int) =~= root);
    } else {
        let root2 = root + seq!['/'] + comps[0];
        lemma_join_within_root(root2, comps.drop_first());
        let p = join_under(root2, comps.drop_first());
        assert(p == join_under(root, comps));
        assert(p.subrange(0, root2.len() as int) == root2);
        assert(root.len() < root2.len());
        assert(p.subrange(0, root.len() as int) =~= root) by {
            assert(forall|k: int|
                0 <= k < root.len() ==> p.subrange(0, root2.len() as int)[k] == p[k]);
            assert(forall|k: int| 0 <= k < root.len() ==> root2[k] == root[k]);
        }
        assert(p[root.len() as int] == root2[root.len() as int]);
        assert(root2[root.len() as int] == '/');
    }
}

/// For every relative name — whatever combination of parent-directory
/// segments, absolute-root markers or repeated separators it contains —
/// the path that resolution would build never leaves the root.
pub proof fn lemma_resolution_never_escapes_root(root: Seq<char>, name: Seq<char>)
    ensures
        within_root(join_under(root, parse_rel(name)), root),
{
    lemma_join_within_root(root, parse_rel(name));
}

/// Appending one more component extends the joined path by a separator and
/// that component.
pub proof fn lemma_join_snoc(root: Seq<char>, comps: Seq<Seq<char>>, c: Seq<char>)
    ensures
        join_under(root, comps.push(c)) == join_under(root, comps) + seq!['/'] + c,
    decreases comps.len(),
{
    if comps.len() == 0 {
        assert(comps.push(c)[0] == c);
        assert(comps.push(c).drop_first() =~= Seq::<Seq<char>>::empty());
        assert(join_under(root, comps.push(c)) == join_under(
            root + seq!['/'] + c,
            comps.push(c).drop_first(),
        ));
    } else {
        assert(comps.push(c)[0] == comps[0]);
        assert(comps.push(c).drop_first() =~= comps.drop_first().push(c));
        lemma_join_snoc(root + seq!['/'] + comps[0], comps.drop_first(), c);
    }
}

/// Appends the segment `name[start..end]` when the filter keeps it.
fn push_kept_segment(comps: &mut Vec<String>, name: &str, start: usize, end: usize)
    requires
        start <= end <= name@.len(),
    ensures
        final(comps).deep_view() == if keep_segment(name@.subrange(start as int, end as int)) {
            old(comps).deep_view().push(name@.subrange(start as int, end as int))
        } else {
            old(comps).deep_view()
        },
{
    let ghost cur = name@.subrange(start as int, end as int);
    let seg_len = end - start;
    let kept = if seg_len == 0 {
        false
    } else if seg_len == 1 {
        name.get_char(start) != '.'
    } else if seg_len == 2 {
        !(name.get_char(start) == '.' && name.get_char(start + 1) == '.')
    } else {
        true
    };
    proof {
        assert(cur.len() == seg_len);
        if seg_len >= 1 {
            assert(cur[0] == name@[start as int]);
        }
        if seg_len >= 2 {
            assert(cur[1] == name@[start as int + 1]);
        }
        assert(kept == keep_segment(cur));
    }
    if kept {
        let seg = String::from_str(name.substring_char(start, end));
        comps.push(seg);
        proof {
            assert(comps.deep_view() =~= old(comps).deep_view().push(cur));
        }
    }
}

/// Splits a relative name into the segments that resolution keeps.
pub fn parse_name(name: &str) -> (comps: Vec<String>)
    ensures
        comps.deep_view() == parse_rel(name@),
{
    let n = name.unicode_len();
    let mut comps: Vec<String> = Vec::new();
    let mut start: usize = 0;
    let mut i: usize = 0;
    proof {
        assert(name@.subrange(0, n as int) =~= name@);
        assert(name@.subrange(0, 0) =~= Seq::<char>::empty());
        assert(comps.deep_view() =~= Seq::<Seq<char>>::empty());
        assert(Seq::<Seq<char>>::empty() + parse_rel_rec(name@, Seq::empty()) =~= parse_rel(
            name@,
        ));
    }
    while i < n
        invariant
            n == name@.len(),
            start <= i <= n,
            parse_rel(name@) == comps.deep_view() + parse_rel_rec(
                name@.subrange(i as int, n as int),
                name@.subrange(start as int, i as int),
            ),
            forall|k: int| start <= k < i ==> name@[k] != '/',
        decreases n - i,
    {
        let ghost rest = name@.subrange(i as int, n as int);
        let ghost cur = name@.subrange(start as int, i as int);
        if name.get_char(i) == '/' {
            proof {
                assert(rest[0] == '/');
                assert(rest.drop_first() =~= name@.subrange(i as int + 1, n as int));
                assert(name@.subrange(i as int + 1, i as int + 1) =~= Seq::<char>::empty());
            }
            let ghost dv_old = comps.deep_view();
            push_kept_segment(&mut comps, name, start, i);
            proof {
                let rr = parse_rel_rec(name@.subrange(i as int + 1, n as int), Seq::empty());
                if keep_segment(cur) {
                    assert(parse_rel_rec(rest, cur) == seq![cur] + rr);
                    assert((dv_old.push(cur)) + rr =~= dv_old + (seq![cur] + rr));
                } else {
                    assert(parse_rel_rec(rest, cur) == rr);
                }
            }
            start = i + 1;
        } else {
            proof {
                assert(rest[0] == name@[i as int]);
                assert(rest.drop_first() =~= name@.subrange(i as int + 1, n as int));
                assert(cur.push(name@[i as int]) =~= name@.subrange(start as int, i as int + 1));
            }
        }
        i = i + 1;
    }
    let ghost cur = name@.subrange(start as int, n as int);
    proof {
        assert(name@.subrange(n as int, n as int) =~= Seq::<char>::empty());
    }
    let ghost dv_old = comps.deep_view();
    push_kept_segment(&mut comps, name, start, n);
    proof {
        if keep_segment(cur) {
            assert(dv_old + seq![cur] =~= dv_old.push(cur));
        } else {
            assert(dv_old + Seq::<Seq<char>>::empty() =~= dv_old);
        }
    }
    comps
}

/// Appends each component under `root`, separator-joined.
pub fn join_path(root: &str, comps: &Vec<String>) -> (r: String)
    ensures
        r@ == join_under(root@, comps.deep_view()),
{
    let mut target = root.to_owned();
    let mut idx: usize = 0;
    proof {
        reveal_strlit("/");
        assert(comps.deep_view().subrange(0, comps.deep_view().len() as int) =~= comps.deep_view());
    }
    while idx < comps.len()
        invariant
            idx <= comps.len(),
            "/"@ == seq!['/'],
            join_under(root@, comps.deep_view()) == join_under(
                target@,
                comps.deep_view().subrange(idx as int, comps.deep_view().len() as int),
            ),
        decreases comps.len() - idx,
    {
        let ghost rest = comps.deep_view().subrange(idx as int, comps.deep_view().len() as int);
        target.append("/");
        target.append(comps[idx].as_str());
        proof {
            assert(rest[0] == comps.deep_view()[idx as int]);
            assert(rest.drop_first() =~= comps.deep_view().subrange(
                idx as int + 1,
                comps.deep_view().len() as int,
            ));
        }
        idx = idx + 1;
    }
    proof {
        assert(comps.deep_view().subrange(
            comps.deep_view().len() as int,
            comps.deep_view().len() as int,
        ) =~= Seq::<Seq<char>>::empty());
    }
    target
}

/// The caller probed every prefix of the resolved path and found no
/// symbolic link: one answer per kept component, all negative.
pub open spec fn resolution_clear(name: Seq<char>, flags: Seq<bool>) -> bool {
    &&& flags.len() == parse_rel(name).len()
    &&& forall|i: int| 0 <= i < flags.len() ==> !flags[i]
}

/// Witness that a resolved path's target existed at resolution time. The
/// target can change between resolution and use; a destructive create must
/// check again.
pub struct PathExists;

/// Witness that a resolved path's target was absent at resolution time; it
/// must never be used for a read. The gap between resolution and use is
/// real: the underlying filesystem's own create semantics decide a race.
pub struct PathDoesntExist;

/// A root-confined, symlink-free bucket path, tagged with its existence
/// witness. Only resolution constructs these.
pub struct BucketPath<Marker> {
    path: String,
    marker: PhantomData<Marker>,
}

impl<Marker> View for BucketPath<Marker> {
    type V = Seq<char>;

    closed spec fn view(&self) -> Seq<char> {
        self.path@
    }
}

impl<Marker> BucketPath<Marker> {
    /// The validated filesystem path.
    pub fn as_str(&self) -> (r: &str)
        ensures
            r@ == self@,
    {
        self.path.as_str()
    }
}

/// A root-confined, symlink-free blob path within a bucket, tagged with its
/// existence witness. Only resolution constructs these.
pub struct BlobPath<Marker> {
    path: String,
    marker: PhantomData<Marker>,
}

impl<Marker> View for BlobPath<Marker> {
    type V = Seq<char>;

    closed spec fn view(&self) -> Seq<char> {
        self.path@
    }
}

impl<Marker> BlobPath<Marker> {
    /// The validated filesystem path.
    pub fn as_str(&self) -> (r: &str)
        ensures
            r@ == self@,
    {
        self.path.as_str()
    }
}

/// Turns untrusted bucket and file names into validated paths under the
/// configured storage root.
pub struct PathManager {
    pub settings: AppSettings,
}

impl PathManager {
    pub fn new(settings: AppSettings) -> (r: Self)
        ensures
            r.settings == settings,
    {
        PathManager { settings }
    }

    /// The storage root every resolution is confined to.
    pub open spec fn spec_root(&self) -> Seq<char> {
        self.settings.storage_root@
    }

    fn get_root(&self) -> (r: String)
        ensures
            r@ == self.spec_root(),
    {
        self.settings.storage_root.clone()
    }

    /// Safely join a relative name to a root. The result points only into
    /// the root directory, and — granted that `symlink_flags[i]` faithfully
    /// answers whether the path up to and including component `i` is a
    /// symbolic link — neither is nor passes through a symlink: one reported
    /// symlink anywhere in the chain, or a missing answer, fails the whole
    /// resolution.
    pub fn safe_join(&self, root: &str, name: &str, symlink_flags: &Vec<bool>) -> (r: Option<
        String,
    >)
        ensures
            r is Some <==> resolution_clear(name@, symlink_flags@),
            match r {
                Some(p) => p@ == join_under(root@, parse_rel(name@)) && within_root(p@, root@),
                None => true,
            },
    {
        let comps = parse_name(name);
        if symlink_flags.len() != comps.len() {
            return None;
        }
        let mut i: usize = 0;
        while i < symlink_flags.len()
            invariant
                i <= symlink_flags@.len(),
                forall|k: int| 0 <= k < i ==> !symlink_flags@[k],
            decreases symlink_flags@.len() - i,
        {
            if symlink_flags[i] {
                return None;
            }
            i = i + 1;
        }
        let p = join_path(root, &comps);
        proof {
            lemma_join_within_root(root@, comps.deep_view());
        }
        Some(p)
    }

    /// The accumulated prefixes of the would-be resolved path, one per kept
    /// component and in traversal order: exactly the paths whose symlink
    /// status resolution needs answered.
    pub fn probe_paths(&self, root: &str, name: &str) -> (ps: Vec<String>)
        ensures
            ps@.len() == parse_rel(name@).len(),
            forall|i: int|
                0 <= i < ps@.len() ==> (#[trigger] ps@[i])@ == join_under(
                    root@,
                    parse_rel(name@).take(i + 1),
                ),
    {
        let comps = parse_name(name);
        let mut ps: Vec<String> = Vec::new();
        let mut target = root.to_owned();
        let mut idx: usize = 0;
        proof {
            reveal_strlit("/");
            assert(comps.deep_view().take(0) =~= Seq::<Seq<char>>::empty());
        }
        while idx < comps.len()
            invariant
                idx <= comps@.len(),
                comps.deep_view() == parse_rel(name@),
                ps@.len() == idx,
                "/"@ == seq!['/'],
                target@ == join_under(root@, comps.deep_view().take(idx as int)),
                forall|i: int|
                    0 <= i < idx ==> (#[trigger] ps@[i])@ == join_under(
                        root@,
                        comps.deep_view().take(i + 1),
                    ),
            decreases comps@.len() - idx,
        {
            target.append("/");
            target.append(comps[idx].as_str());
            proof {
                lemma_join_snoc(
                    root@,
                    comps.deep_view().take(idx as int),
                    comps.deep_view()[idx as int],
                );
                assert(comps.deep_view().take(idx as int).push(comps.deep_view()[idx as int])
                    =~= comps.deep_view().take(idx as int + 1));
            }
            ps.push(target.clone());
            idx = idx + 1;
        }
        ps
    }

    /// Convert the given bucket name to a new bucket path: the resolution
    /// must be clear of symlinks and the target must not exist.
    pub fn create_bucket(
        &self,
        bucket_name: &str,
        symlink_flags: &Vec<bool>,
        target_exists: bool,
    ) -> (r: Option<BucketPath<PathDoesntExist>>)
        ensures
            r is Some <==> (resolution_clear(bucket_name@, symlink_flags@) && !target_exists),
            match r {
                Some(b) => b@ == join_under(self.spec_root(), parse_rel(bucket_name@))
                    && within_root(b@, self.spec_root()),
                None => true,
            },
    {
        let root = self.get_root();
        let path = self.safe_join(root.as_str(), bucket_name, symlink_flags)?;
        if target_exists {
            return None;
        }
        Some(BucketPath { path, marker: PhantomData })
    }

    /// Convert the given bucket name to an existing bucket path: the
    /// resolution must be clear of symlinks and the target must exist.
    pub fn get_bucket(&self, bucket_name: &str, symlink_flags: &Vec<bool>, target_exists: bool) -> (r:
        Option<BucketPath<PathExists>>)
        ensures
            r is Some <==> (resolution_clear(bucket_name@, symlink_flags@) && target_exists),
            match r {
                Some(b) => b@ == join_under(self.spec_root(), parse_rel(bucket_name@))
                    && within_root(b@, self.spec_root()),
                None => true,
            },
    {
        let root = self.get_root();
        let path = self.safe_join(root.as_str(), bucket_name, symlink_flags)?;
        if !target_exists {
            return None;
        }
        Some(BucketPath { path, marker: PhantomData })
    }

    /// Convert a file name under an existing bucket to a new blob path: the
    /// resolution must be clear of symlinks and the target must not exist.
    pub fn create_bucket_file(
        &self,
        bucket: &BucketPath<PathExists>,
        file: &str,
        symlink_flags: &Vec<bool>,
        target_exists: bool,
    ) -> (r: Option<BlobPath<PathDoesntExist>>)
        ensures
            r is Some <==> (resolution_clear(file@, symlink_flags@) && !target_exists),
            match r {
                Some(b) => b@ == join_under(bucket@, parse_rel(file@)) && within_root(b@, bucket@),
                None => true,
            },
    {
        let path = self.safe_join(bucket.as_str(), file, symlink_flags)?;
        if target_exists {
            return None;
        }
        Some(BlobPath { path, marker: PhantomData })
    }

    /// Convert a file name under an existing bucket to an existing blob
    /// path: the resolution must be clear of symlinks and the target must
    /// exist.
    pub fn get_bucket_file(
        &self,
        bucket: &BucketPath<PathExists>,
        file: &str,
        symlink_flags: &Vec<bool>,
        target_exists: bool,
    ) -> (r: Option<BlobPath<PathExists>>)
        ensures
            r is Some <==> (resolution_clear(file@, symlink_flags@) && target_exists),
            match r {
                Some(b) => b@ == join_under(bucket@, parse_rel(file@)) && within_root(b@, bucket@),
                None => true,
            },
    {
        let path = self.safe_join(bucket.as_str(), file, symlink_flags)?;
        if !target_exists {
            return None;
        }
        Some(BlobPath { path, marker: PhantomData })
    }
}

} // verus!
