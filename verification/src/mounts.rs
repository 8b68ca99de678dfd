//! Virtual resource mounts and the resolution of `brazen://` URLs.

use vstd::prelude::*;
use crate::text::{chars_of, str_eq, owned, chars_eq, chars_have, string_of, has_char};
use crate::urls::{UrlParts, UrlView, parse_url, url_parse_result, path_segments, path_segments_of, pieces_view};
use crate::config::strings_view;

verus! {

/// The type and configuration of a mounted resource.
#[derive(Debug)]
pub enum MountType {
    /// A local directory.
    FileSystem(String),
    /// A terminal session.
    Terminal,
    /// Tool definitions.
    Mcp,
    /// Cross-tab visibility and management.
    Tabs,
}

/// A mount type as plain values: (kind, directory), with kinds numbered
/// FileSystem 0, Terminal 1, Mcp 2, Tabs 3; only a directory mount has a
/// directory.
pub open spec fn mount_type_view(t: MountType) -> (nat, Seq<char>) {
    match t {
        MountType::FileSystem(p) => (0, p@),
        MountType::Terminal => (1, Seq::<char>::empty()),
        MountType::Mcp => (2, Seq::<char>::empty()),
        MountType::Tabs => (3, Seq::<char>::empty()),
    }
}

impl Clone for MountType {
    fn clone(&self) -> (r: Self)
        ensures
            mount_type_view(r) == mount_type_view(*self),
    {
        match self {
            MountType::FileSystem(p) => MountType::FileSystem(p.clone()),
            MountType::Terminal => MountType::Terminal,
            MountType::Mcp => MountType::Mcp,
            MountType::Tabs => MountType::Tabs,
        }
    }
}

/// A virtual resource mount, reached at `brazen://fs/<name>/...`.
#[derive(Debug)]
pub struct Mount {
    /// The unique name of the mount.
    pub name: String,
    /// The type and configuration of the mount.
    pub mount_type: MountType,
    /// Whether the resource is read-only.
    pub read_only: bool,
    /// Origins allowed to reach the mount; an empty list allows every origin.
    pub allowed_domains: Vec<String>,
}

/// A mount as plain values: (name, type, read-only, allowed domains).
pub type MountView = (Seq<char>, (nat, Seq<char>), bool, Seq<Seq<char>>);

impl View for Mount {
    type V = MountView;

    open spec fn view(&self) -> MountView {
        (self.name@, mount_type_view(self.mount_type), self.read_only, strings_view(self.allowed_domains@))
    }
}

/// A copy of a list of strings.
pub fn copy_strings(v: &Vec<String>) -> (r: Vec<String>)
    ensures
        strings_view(r@) == strings_view(v@),
{
    let mut r: Vec<String> = Vec::new();
    let mut i: usize = 0;
    assert(strings_view(r@) =~= strings_view(v@.subrange(0, 0)));
    while i < v.len()
        invariant
            i <= v@.len(),
            strings_view(r@) == strings_view(v@.subrange(0, i as int)),
        decreases v@.len() - i,
    {
        let ghost prev = r@;
        let x = v[i].clone();
        r.push(x);
        i = i + 1;
        assert(strings_view(r@) =~= strings_view(prev).push(v@[i - 1]@));
        assert(strings_view(v@.subrange(0, i as int)) =~= strings_view(v@.subrange(0, i - 1)).push(v@[i - 1]@));
    }
    assert(v@.subrange(0, v@.len() as int) =~= v@);
    r
}

impl Clone for Mount {
    fn clone(&self) -> (r: Self)
        ensures
            r@ == self@,
    {
        Mount {
            name: self.name.clone(),
            mount_type: self.mount_type.clone(),
            read_only: self.read_only,
            allowed_domains: copy_strings(&self.allowed_domains),
        }
    }
}

/// The views of a list of mounts.
pub open spec fn mounts_view(v: Seq<Mount>) -> Seq<MountView> {
    Seq::new(v.len(), |i: int| v[i]@)
}

/// No two mounts share a name.
pub open spec fn names_unique(v: Seq<MountView>) -> bool {
    forall|i: int, j: int| 0 <= i < v.len() && 0 <= j < v.len() && i != j ==> v[i].0 != v[j].0
}

/// The mount named `name`, if any.
pub open spec fn mount_named(v: Seq<MountView>, name: Seq<char>) -> Option<MountView> {
    if exists|i: int| 0 <= i < v.len() && v[i].0 == name {
        let i = choose|i: int| 0 <= i < v.len() && v[i].0 == name;
        Some(v[i])
    } else {
        None
    }
}

/// The set of mounts, keyed by name.
#[derive(Debug)]
pub struct MountManager {
    mounts: Vec<Mount>,
}

impl MountManager {
    #[verifier::type_invariant]
    spec fn inv(&self) -> bool {
        names_unique(mounts_view(self.mounts@))
    }

    /// The mounts, each name once.
    pub closed spec fn mounts(&self) -> Seq<MountView> {
        mounts_view(self.mounts@)
    }

    /// The mount named `name`, if any.
    pub open spec fn lookup(&self, name: Seq<char>) -> Option<MountView> {
        mount_named(self.mounts(), name)
    }

    /// A manager without mounts.
    pub fn new() -> (r: Self)
        ensures
            r.mounts().len() == 0,
            forall|n: Seq<char>| #[trigger] r.lookup(n) is None,
    {
        MountManager { mounts: Vec::new() }
    }

    /// The position of the mount named `name`.
    fn position(&self, name: &str) -> (r: Option<usize>)
        ensures
            r matches Some(i) ==> i < self.mounts().len() && self.mounts()[i as int].0 == name@,
            r is None ==> forall|j: int| 0 <= j < self.mounts().len() ==> self.mounts()[j].0 != name@,
    {
        let mut i: usize = 0;
        while i < self.mounts.len()
            invariant
                i <= self.mounts@.len(),
                forall|j: int| 0 <= j < i ==> self.mounts@[j].name@ != name@,
            decreases self.mounts@.len() - i,
        {
            if str_eq(self.mounts[i].name.as_str(), name) {
                return Some(i);
            }
            i = i + 1;
        }
        None
    }

    /// Adds a mount, replacing any mount of the same name.
    pub fn add_mount(&mut self, mount: Mount)
        ensures
            final(self).lookup(mount@.0) == Some(mount@),
            forall|n: Seq<char>| n != mount@.0 ==> #[trigger] final(self).lookup(n) == old(self).lookup(n),
    {
        proof {
            use_type_invariant(&*self);
        }
        let ghost before = self.mounts();
        let ghost mv = mount@;
        let pos = self.position(mount.name.as_str());
        let mut v: Vec<Mount> = Vec::new();
        std::mem::swap(&mut v, &mut self.mounts);
        match pos {
            Some(i) => {
                v.set(i, mount);
                proof {
                    assert(mounts_view(v@) =~= before.update(i as int, mv));
                }
            },
            None => {
                v.push(mount);
                proof {
                    assert(mounts_view(v@) =~= before.push(mv));
                }
            },
        }
        proof {
            let after = mounts_view(v@);
            assert forall|a: int, b: int| 0 <= a < after.len() && 0 <= b < after.len() && a != b
                implies after[a].0 != after[b].0 by {
                if pos is Some {
                    let i = pos->Some_0 as int;
                    if a != i && b != i { assert(after[a] == before[a] && after[b] == before[b]); }
                    else if a == i { assert(after[b] == before[b]); }
                    else { assert(after[a] == before[a]); }
                } else {
                    if a < before.len() && b < before.len() { assert(after[a] == before[a] && after[b] == before[b]); }
                    else if a < before.len() { assert(after[a] == before[a]); }
                    else { assert(after[b] == before[b]); }
                }
            }
        }
        self.mounts = v;
        proof {
            let after = mounts_view(self.mounts@);
            assert(names_unique(after));
            let idx: int = match pos { Some(i) => i as int, None => before.len() as int };
            assert(after[idx] == mv);
            let k = choose|k: int| 0 <= k < after.len() && after[k].0 == mv.0;
            assert(k == idx);
            assert forall|n: Seq<char>| n != mv.0 implies #[trigger] mount_named(after, n) == mount_named(before, n) by {
                if exists|i: int| 0 <= i < after.len() && after[i].0 == n {
                    let i = choose|i: int| 0 <= i < after.len() && after[i].0 == n;
                    assert(before[i] == after[i]);
                }
                if exists|i: int| 0 <= i < before.len() && before[i].0 == n {
                    let i = choose|i: int| 0 <= i < before.len() && before[i].0 == n;
                    assert(before[i] == after[i]);
                }
            }
        }
    }

    /// Removes the mount named `name`, if there is one.
    pub fn remove_mount(&mut self, name: &str)
        ensures
            final(self).lookup(name@) is None,
            forall|n: Seq<char>| n != name@ ==> #[trigger] final(self).lookup(n) == old(self).lookup(n),
    {
        proof {
            use_type_invariant(&*self);
        }
        let ghost before = self.mounts();
        if let Some(i) = self.position(name) {
            let mut v: Vec<Mount> = Vec::new();
            std::mem::swap(&mut v, &mut self.mounts);
            v.remove(i);
            proof {
                let after = mounts_view(v@);
                assert(after =~= before.remove(i as int));
                assert forall|a: int, b: int| 0 <= a < after.len() && 0 <= b < after.len() && a != b
                    implies after[a].0 != after[b].0 by {
                    let a2 = if a < i { a } else { a + 1 };
                    let b2 = if b < i { b } else { b + 1 };
                    assert(after[a] == before[a2] && after[b] == before[b2]);
                }
            }
            self.mounts = v;
            proof {
                let after = mounts_view(self.mounts@);
                assert(after =~= before.remove(i as int));
                assert forall|n: Seq<char>| n != name@ implies #[trigger] mount_named(after, n) == mount_named(before, n) by {
                    if exists|k: int| 0 <= k < after.len() && after[k].0 == n {
                        let k = choose|k: int| 0 <= k < after.len() && after[k].0 == n;
                        if k < i { assert(before[k] == after[k]); } else { assert(before[k + 1] == after[k]); }
                    }
                    if exists|k: int| 0 <= k < before.len() && before[k].0 == n {
                        let k = choose|k: int| 0 <= k < before.len() && before[k].0 == n;
                        if k < i { assert(before[k] == after[k]); } else { assert(before[k] == after[k - 1]); }
                    }
                }
                if exists|k: int| 0 <= k < after.len() && after[k].0 == name@ {
                    let k = choose|k: int| 0 <= k < after.len() && after[k].0 == name@;
                    if k < i { assert(before[k] == after[k]); } else { assert(before[k + 1] == after[k]); }
                }
            }
        }
    }

    /// All mounts, each name once.
    pub fn list_mounts(&self) -> (r: Vec<Mount>)
        ensures
            mounts_view(r@) == self.mounts(),
            names_unique(mounts_view(r@)),
    {
        proof { use_type_invariant(self); }
        let mut r: Vec<Mount> = Vec::new();
        let mut i: usize = 0;
        assert(mounts_view(r@) =~= mounts_view(self.mounts@.subrange(0, 0)));
        while i < self.mounts.len()
            invariant
                i <= self.mounts@.len(),
                mounts_view(r@) == mounts_view(self.mounts@.subrange(0, i as int)),
            decreases self.mounts@.len() - i,
        {
            let ghost prev = r@;
            let m = self.mounts[i].clone();
            assert(m@ == self.mounts@[i as int]@);
            r.push(m);
            i = i + 1;
            assert(r@ == prev.push(m));
            assert(mounts_view(r@) =~= mounts_view(prev).push(self.mounts@[i - 1]@));
            assert(mounts_view(self.mounts@.subrange(0, i as int))
                =~= mounts_view(self.mounts@.subrange(0, i - 1)).push(self.mounts@[i - 1]@));
        }
        assert(self.mounts@.subrange(0, self.mounts@.len() as int) =~= self.mounts@);
        r
    }
}

/// `p` with `s` pushed on, as `PathBuf::push` does with a relative piece:
/// a '/' goes between them unless `p` is empty or already ends with one.
pub open spec fn pushed(p: Seq<char>, s: Seq<char>) -> Seq<char> {
    if p.len() == 0 || p.last() == '/' { p + s } else { p + seq!['/'] + s }
}

/// `base` with each of `segs` pushed on in turn.
pub open spec fn joined(base: Seq<char>, segs: Seq<Seq<char>>) -> Seq<char>
    decreases segs.len(),
{
    if segs.len() == 0 {
        base
    } else {
        pushed(joined(base, segs.drop_last()), segs.last())
    }
}

/// A path segment that could leave the mounted directory: "..", or one
/// holding a separator.
pub open spec fn unsafe_segment(s: Seq<char>) -> bool {
    s == ".."@ || has_char(s, '/') || has_char(s, '\\')
}

/// The host of an origin: the host of the URL it parses to, or the origin
/// itself where it does not parse or has no host.
pub open spec fn origin_host(origin: Seq<char>) -> Seq<char> {
    match url_parse_result(origin) {
        Ok(p) => match p.2 {
            Some(h) => h,
            None => origin,
        },
        Err(_) => origin,
    }
}

/// Whether the origin may reach the mount: every origin may reach a mount
/// without allowed domains; otherwise the origin must be given and its
/// host must be one of them.
pub open spec fn origin_allowed(m: MountView, origin: Option<Seq<char>>) -> bool {
    m.3.len() == 0 || (origin matches Some(o) && m.3.contains(origin_host(o)))
}

/// What `brazen://fs/<mount>/<path...>` resolves to: the directory mount
/// named by the first path segment, if the origin may reach it, and its
/// directory with the remaining segments pushed on; nothing for another
/// URL, an unknown or unreachable mount, a mount that is not a directory,
/// or a path with an unsafe segment.
pub open spec fn fs_target(mounts: Seq<MountView>, url: UrlView, origin: Option<Seq<char>>) -> Option<(MountView, Seq<char>)> {
    if url.1 != "brazen"@ || url.2 != Some("fs"@) {
        None
    } else {
        match path_segments_of(url.3) {
            None => None,
            Some(segs) => match mount_named(mounts, segs[0]) {
                None => None,
                Some(m) => if !origin_allowed(m, origin) || m.1.0 != 0 {
                    None
                } else {
                    let rest = segs.subrange(1, segs.len() as int);
                    if exists|i: int| 0 <= i < rest.len() && unsafe_segment(rest[i]) {
                        None
                    } else {
                        Some((m, joined(m.1.1, rest)))
                    }
                },
            },
        }
    }
}

/// Whether the URL is `brazen://<host>...`.
pub open spec fn is_brazen_host(url: UrlView, host: Seq<char>) -> bool {
    url.1 == "brazen"@ && url.2 == Some(host)
}

fn brazen_host(url: &UrlParts, host: &str) -> (r: bool)
    ensures
        r == is_brazen_host(url.view_parts(), host@),
{
    if !str_eq(url.scheme.as_str(), "brazen") {
        return false;
    }
    match &url.host {
        Some(h) => str_eq(h.as_str(), host),
        None => false,
    }
}

/// The host of an origin, as `origin_host` says.
fn host_of_origin(origin: &str) -> (r: String)
    ensures
        r@ == origin_host(origin@),
{
    match parse_url(origin) {
        Ok(p) => match p.host {
            Some(h) => h,
            None => owned(origin),
        },
        Err(_) => owned(origin),
    }
}

/// Whether the list holds the string.
pub fn strings_contain(v: &Vec<String>, s: &str) -> (r: bool)
    ensures
        r == strings_view(v@).contains(s@),
{
    let mut i: usize = 0;
    while i < v.len()
        invariant
            i <= v@.len(),
            forall|j: int| 0 <= j < i ==> v@[j]@ != s@,
        decreases v@.len() - i,
    {
        if str_eq(v[i].as_str(), s) {
            assert(strings_view(v@)[i as int] == s@);
            return true;
        }
        i = i + 1;
    }
    proof {
        if strings_view(v@).contains(s@) {
            let j = choose|j: int| 0 <= j < strings_view(v@).len() && strings_view(v@)[j] == s@;
            assert(v@[j]@ == s@);
        }
    }
    false
}

fn push_segment(p: &mut Vec<char>, s: &Vec<char>)
    ensures
        final(p)@ == pushed(old(p)@, s@),
{
    let ghost p0 = p@;
    if p.len() != 0 && p[p.len() - 1] != '/' {
        p.push('/');
    }
    let mut i: usize = 0;
    let ghost mid = p@;
    while i < s.len()
        invariant
            i <= s@.len(),
            p@ == mid + s@.subrange(0, i as int),
        decreases s@.len() - i,
    {
        p.push(s[i]);
        i = i + 1;
        assert(p@ =~= mid + s@.subrange(0, i as int));
    }
    proof {
        assert(s@.subrange(0, s@.len() as int) =~= s@);
        if p0.len() != 0 && p0.last() != '/' {
            assert(mid =~= p0 + seq!['/']);
        } else {
            assert(mid =~= p0);
        }
    }
}

fn is_unsafe_segment(s: &Vec<char>) -> (r: bool)
    ensures
        r == unsafe_segment(s@),
{
    let dots = chars_of("..");
    chars_eq(s.as_slice(), dots.as_slice()) || chars_have(s.as_slice(), '/') || chars_have(s.as_slice(), '\\')
}

impl MountManager {
    /// Resolves `brazen://fs/<mount>/<path...>` for a request from `origin`
    /// to the mount and the local path it names, without touching the
    /// file system.
    pub fn resolve_fs_target_with_origin(&self, url: &UrlParts, origin: Option<&str>) -> (r: Option<(Mount, String)>)
        ensures
            match r {
                Some((m, p)) => fs_target(self.mounts(), url.view_parts(), opt_str_view(origin)) == Some((m@, p@)),
                None => fs_target(self.mounts(), url.view_parts(), opt_str_view(origin)) is None,
            },
    {
        proof {
            use_type_invariant(self);
        }
        let ghost uv = url.view_parts();
        let ghost mv = self.mounts();
        if !brazen_host(url, "fs") {
            return None;
        }
        let segs = match path_segments(url) {
            Some(v) => v,
            None => {
                return None;
            },
        };
        let ghost sv = pieces_view(segs@);
        proof {
            crate::urls::lemma_split_nonempty_pub(uv.3.subrange(1, uv.3.len() as int), '/');
        }
        let first = string_of(segs[0].as_slice());
        assert(first@ == sv[0]);
        let i = match self.position(first.as_str()) {
            Some(i) => i,
            None => {
                assert(mount_named(mv, sv[0]) is None);
                return None;
            },
        };
        let mount = &self.mounts[i];
        proof {
            let k = choose|k: int| 0 <= k < mv.len() && mv[k].0 == sv[0];
            assert(k == i);
            assert(mount_named(mv, sv[0]) == Some(mv[i as int]));
            assert(mv[i as int] == mount@);
        }
        if mount.allowed_domains.len() != 0 {
            match origin {
                None => {
                    return None;
                },
                Some(o) => {
                    let host = host_of_origin(o);
                    if !strings_contain(&mount.allowed_domains, host.as_str()) {
                        return None;
                    }
                },
            }
        }
        let base = match &mount.mount_type {
            MountType::FileSystem(b) => b,
            _ => {
                return None;
            },
        };
        let mut path = chars_of(base.as_str());
        let ghost rest = sv.subrange(1, sv.len() as int);
        assert(origin_allowed(mount@, opt_str_view(origin)));
        assert(mount@.1 == (0nat, base@));
        assert(path_segments_of(uv.3) == Some(sv));
        let mut j: usize = 1;
        while j < segs.len()
            invariant
                1 <= j <= segs@.len(),
                sv == pieces_view(segs@),
                rest == sv.subrange(1, sv.len() as int),
                path@ == joined(base@, rest.subrange(0, j - 1)),
                forall|k: int| 0 <= k < j - 1 ==> !unsafe_segment(rest[k]),
                uv == url.view_parts(),
                mv == self.mounts(),
                uv.1 == "brazen"@ && uv.2 == Some("fs"@),
                path_segments_of(uv.3) == Some(sv),
                mount_named(mv, sv[0]) == Some(mount@),
                origin_allowed(mount@, opt_str_view(origin)),
                mount@.1 == (0nat, base@),
            decreases segs@.len() - j,
        {
            assert(rest[j - 1] == segs@[j as int]@);
            if is_unsafe_segment(&segs[j]) {
                assert(unsafe_segment(rest[j - 1]));
                return None;
            }
            push_segment(&mut path, &segs[j]);
            j = j + 1;
            assert(rest.subrange(0, j - 1).drop_last() =~= rest.subrange(0, j - 2));
        }
        assert(rest.subrange(0, rest.len() as int) =~= rest);
        Some((mount.clone(), string_of(path.as_slice())))
    }

    /// Resolves `brazen://fs/...` for a request without an origin, without
    /// touching the file system: the mount, the local path, and the path
    /// segments after the mount's name.
    pub fn resolve_fs_target(&self, url: &UrlParts) -> (r: Option<(Mount, String, Vec<String>)>)
        ensures
            match r {
                Some((m, p, rest)) => fs_target(self.mounts(), url.view_parts(), None) == Some((m@, p@))
                    && (path_segments_of(url.path@) matches Some(segs)
                    && strings_view(rest@) == segs.subrange(1, segs.len() as int)),
                None => fs_target(self.mounts(), url.view_parts(), None) is None,
            },
    {
        match self.resolve_fs_target_with_origin(url, None) {
            None => None,
            Some((m, p)) => {
                let segs = match path_segments(url) {
                    Some(v) => v,
                    None => {
                        assert(false);
                        return None;
                    },
                };
                let ghost sv = pieces_view(segs@);
                proof {
                    crate::urls::lemma_split_nonempty_pub(url.path@.subrange(1, url.path@.len() as int), '/');
                }
                let mut rest: Vec<String> = Vec::new();
                let mut j: usize = 1;
                while j < segs.len()
                    invariant
                        1 <= j <= segs@.len(),
                        sv == pieces_view(segs@),
                        strings_view(rest@) == sv.subrange(1, j as int),
                    decreases segs@.len() - j,
                {
                    let piece = string_of(segs[j].as_slice());
                    assert(piece@ == sv[j as int]);
                    let ghost prev = rest@;
                    rest.push(piece);
                    assert(strings_view(rest@) =~= strings_view(prev).push(piece@));
                    j = j + 1;
                    assert(strings_view(rest@) =~= sv.subrange(1, j as int));
                }
                Some((m, p, rest))
            },
        }
    }

    /// Resolves `brazen://fs/...` for a request from `origin` to the local
    /// path and whether the mount is read-only.
    pub fn resolve_fs_request_with_origin(&self, url: &UrlParts, origin: Option<&str>) -> (r: Option<(String, bool)>)
        ensures
            match r {
                Some((p, ro)) => fs_target(self.mounts(), url.view_parts(), opt_str_view(origin)) matches Some(t)
                    && t.1 == p@ && t.0.2 == ro,
                None => fs_target(self.mounts(), url.view_parts(), opt_str_view(origin)) is None,
            },
    {
        match self.resolve_fs_target_with_origin(url, origin) {
            Some((m, p)) => Some((p, m.read_only)),
            None => None,
        }
    }

    /// Resolves `brazen://fs/...` for a request without an origin to the
    /// local path and whether the mount is read-only.
    pub fn resolve_fs_request(&self, url: &UrlParts) -> (r: Option<(String, bool)>)
        ensures
            match r {
                Some((p, ro)) => fs_target(self.mounts(), url.view_parts(), None) matches Some(t)
                    && t.1 == p@ && t.0.2 == ro,
                None => fs_target(self.mounts(), url.view_parts(), None) is None,
            },
    {
        self.resolve_fs_request_with_origin(url, None)
    }

    /// Whether the URL is a `brazen://terminal` request.
    pub fn resolve_terminal_request(&self, url: &UrlParts) -> (r: bool)
        ensures
            r == is_brazen_host(url.view_parts(), "terminal"@),
    {
        brazen_host(url, "terminal")
    }

    /// Whether the URL is a `brazen://tabs` request.
    pub fn resolve_tabs_request(&self, url: &UrlParts) -> (r: bool)
        ensures
            r == is_brazen_host(url.view_parts(), "tabs"@),
    {
        brazen_host(url, "tabs")
    }

    /// Whether the URL is a `brazen://mcp` request.
    pub fn resolve_mcp_request(&self, url: &UrlParts) -> (r: bool)
        ensures
            r == is_brazen_host(url.view_parts(), "mcp"@),
    {
        brazen_host(url, "mcp")
    }
}

/// The view of an optional string slice.
pub open spec fn opt_str_view(o: Option<&str>) -> Option<Seq<char>> {
    match o {
        Some(s) => Some(s@),
        None => None,
    }
}


/// A path that climbs out of a mount with ".." (or names a segment holding
/// a path separator) never resolves, whatever the origin.
pub proof fn law_traversal_denied(mounts: Seq<MountView>, url: UrlView, origin: Option<Seq<char>>, segs: Seq<Seq<char>>, i: int)
    requires
        path_segments_of(url.3) == Some(segs),
        1 <= i < segs.len(),
        unsafe_segment(segs[i]),
    ensures
        fs_target(mounts, url, origin) is None,
{
    let rest = segs.subrange(1, segs.len() as int);
    assert(rest[i - 1] == segs[i]);
}

/// A mount that lists allowed domains is never reached without an origin,
/// nor from an origin whose host it does not list.
pub proof fn law_allowed_domains_enforced(mounts: Seq<MountView>, url: UrlView, origin: Option<Seq<char>>, segs: Seq<Seq<char>>, m: MountView)
    requires
        path_segments_of(url.3) == Some(segs),
        mount_named(mounts, segs[0]) == Some(m),
        m.3.len() > 0,
        match origin {
            None => true,
            Some(o) => !m.3.contains(origin_host(o)),
        },
    ensures
        fs_target(mounts, url, origin) is None,
{
}

/// A resolved target lies under the mount's directory: it is the directory
/// with the URL's remaining segments pushed on, none of which climbs out.
pub proof fn law_resolved_inside_mount(mounts: Seq<MountView>, url: UrlView, origin: Option<Seq<char>>, m: MountView, path: Seq<char>)
    requires
        fs_target(mounts, url, origin) == Some((m, path)),
    ensures
        m.1.0 == 0,
        path_segments_of(url.3) matches Some(segs) && mount_named(mounts, segs[0]) == Some(m)
            && path == joined(m.1.1, segs.subrange(1, segs.len() as int))
            && forall|i: int| 1 <= i < segs.len() ==> !unsafe_segment(#[trigger] segs[i]),
{
    let segs = path_segments_of(url.3).unwrap();
    let rest = segs.subrange(1, segs.len() as int);
    assert forall|i: int| 1 <= i < segs.len() implies !unsafe_segment(#[trigger] segs[i]) by {
        assert(rest[i - 1] == segs[i]);
    }
}

} // verus!
