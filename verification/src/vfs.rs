use vstd::prelude::*;
use vstd::string::StringSliceAdditionalSpecFns;
use crate::com_name::starts_with;
use crate::platform::{is_string_value, KeySpec};
use crate::reg_hook::{RegValue, HKEY_LOCAL_MACHINE};

verus! {

/// The directories that virtual paths are redirected to.
pub struct VfsConfig {
    pub amfs: String,
    pub option: String,
    pub appdata: String,
    pub nthome: String,
    pub allow_amfs_downloads: bool,
}

/// Which configured directory a virtual path lands in.
#[derive(Clone, Copy, PartialEq, Eq, Debug, Structural)]
pub enum VfsRoot {
    Amfs,
    Appdata,
    Nthome,
    Option,
}

/// Where a virtual path goes: under `root`, at the relative path `tail`
/// (empty for the root itself).
pub struct VfsTarget {
    pub root: VfsRoot,
    pub tail: Vec<u8>,
}

/// `c:\documents and settings\appuser`
pub open spec fn vfs_nthome() -> Seq<u8> {
    seq![99u8, 58, 92, 100, 111, 99, 117, 109, 101, 110, 116, 115, 32, 97, 110, 100, 32, 115, 101, 116, 116, 105, 110,
        103, 115, 92, 97, 112, 112, 117, 115, 101, 114]
}

/// `c:\users\appuser`
pub open spec fn vfs_w10home() -> Seq<u8> {
    seq![99u8, 58, 92, 117, 115, 101, 114, 115, 92, 97, 112, 112, 117, 115, 101, 114]
}

/// `c:\mount\option`
pub open spec fn vfs_option() -> Seq<u8> {
    seq![99u8, 58, 92, 109, 111, 117, 110, 116, 92, 111, 112, 116, 105, 111, 110]
}

/// `c:\mount\apm`
pub open spec fn vfs_apm() -> Seq<u8> {
    seq![99u8, 58, 92, 109, 111, 117, 110, 116, 92, 97, 112, 109]
}

/// `e:\tmpicf.icf`
pub open spec fn vfs_tmp_icf() -> Seq<u8> {
    seq![101u8, 58, 92, 116, 109, 112, 105, 99, 102, 46, 105, 99, 102]
}

/// `tmpIcf.icf`
pub open spec fn tmp_icf_name() -> Seq<u8> {
    seq![116u8, 109, 112, 73, 99, 102, 46, 105, 99, 102]
}

/// Whether a UTF-8 string may be cut before byte `i`.
pub open spec fn is_boundary(s: Seq<u8>, i: int) -> bool {
    i == s.len() || (0 <= i < s.len() && !(0x80 <= s[i] < 0xC0))
}

/// The part of a path on drive `drive` after `x:\` (empty when the path is
/// just `x:` or cannot be cut there), or `None` for another drive.
pub open spec fn strip_drive_spec(p: Seq<u8>, drive: u8) -> Option<Seq<u8>> {
    if p.len() < 2 || p[0] != drive || p[1] != 58 {
        None
    } else if p.len() >= 3 && is_boundary(p, 3) {
        Some(p.skip(3))
    } else {
        Some(Seq::empty())
    }
}

/// The part of a path below directory `prefix`: empty for the directory
/// itself, what follows the separator for anything inside it, `None`
/// otherwise.
pub open spec fn strip_prefix_dir_spec(p: Seq<u8>, prefix: Seq<u8>) -> Option<Seq<u8>> {
    if !starts_with(p, prefix) {
        None
    } else if p.len() == prefix.len() {
        Some(Seq::empty())
    } else if p[prefix.len() as int] == 92 {
        Some(p.skip(prefix.len() as int + 1))
    } else {
        None
    }
}

/// Where a normalized virtual path goes: the shared ICF file to the app data
/// directory unless AMFS downloads are allowed, drive `e:` to AMFS, drive
/// `y:` to the app data directory, the user profiles to the user's home, and
/// the option mounts to the option directory; any other path is not virtual.
pub open spec fn resolve_spec(allow_amfs_downloads: bool, p: Seq<u8>) -> Option<(VfsRoot, Seq<u8>)> {
    if p == vfs_tmp_icf() && !allow_amfs_downloads {
        Some((VfsRoot::Appdata, tmp_icf_name()))
    } else if strip_drive_spec(p, 101) is Some {
        Some((VfsRoot::Amfs, strip_drive_spec(p, 101).unwrap()))
    } else if strip_drive_spec(p, 121) is Some {
        Some((VfsRoot::Appdata, strip_drive_spec(p, 121).unwrap()))
    } else if strip_prefix_dir_spec(p, vfs_nthome()) is Some {
        Some((VfsRoot::Nthome, strip_prefix_dir_spec(p, vfs_nthome()).unwrap()))
    } else if strip_prefix_dir_spec(p, vfs_w10home()) is Some {
        Some((VfsRoot::Nthome, strip_prefix_dir_spec(p, vfs_w10home()).unwrap()))
    } else if strip_prefix_dir_spec(p, vfs_option()) is Some {
        Some((VfsRoot::Option, strip_prefix_dir_spec(p, vfs_option()).unwrap()))
    } else if strip_prefix_dir_spec(p, vfs_apm()) is Some {
        Some((VfsRoot::Option, strip_prefix_dir_spec(p, vfs_apm()).unwrap()))
    } else {
        None
    }
}

fn bytes_from(s: &[u8], start: usize) -> (out: Vec<u8>)
    requires
        start <= s@.len(),
    ensures
        out@ == s@.skip(start as int),
{
    let mut out: Vec<u8> = Vec::new();
    let mut i = start;
    while i < s.len()
        invariant
            start <= i <= s@.len(),
            out@ == s@.subrange(start as int, i as int),
        decreases s@.len() - i,
    {
        out.push(s[i]);
        i = i + 1;
        assert(out@ =~= s@.subrange(start as int, i as int));
    }
    out
}

/// The part of a path after `x:\` on drive `drive` (see `strip_drive_spec`).
pub fn strip_drive(p: &[u8], drive: u8) -> (r: Option<Vec<u8>>)
    ensures
        match strip_drive_spec(p@, drive) {
            None => r is None,
            Some(t) => r matches Some(v) && v@ == t,
        },
{
    if p.len() < 2 || p[0] != drive || p[1] != 58 {
        return None;
    }
    if p.len() >= 3 && (p.len() == 3 || !(0x80 <= p[3] && p[3] < 0xC0)) {
        return Some(bytes_from(p, 3));
    }
    Some(Vec::new())
}

fn prefix_matches(p: &[u8], prefix: &[u8]) -> (b: bool)
    ensures
        b == starts_with(p@, prefix@),
{
    if p.len() < prefix.len() {
        return false;
    }
    let mut i: usize = 0;
    while i < prefix.len()
        invariant
            i <= prefix@.len() <= p@.len(),
            forall|k: int| 0 <= k < i ==> p@[k] == prefix@[k],
        decreases prefix@.len() - i,
    {
        if p[i] != prefix[i] {
            assert(p@.take(prefix@.len() as int)[i as int] != prefix@[i as int]);
            return false;
        }
        i = i + 1;
    }
    assert(p@.take(prefix@.len() as int) =~= prefix@);
    true
}

/// The part of a path below directory `prefix` (see `strip_prefix_dir_spec`).
pub fn strip_prefix_dir(p: &[u8], prefix: &[u8]) -> (r: Option<Vec<u8>>)
    ensures
        match strip_prefix_dir_spec(p@, prefix@) {
            None => r is None,
            Some(t) => r matches Some(v) && v@ == t,
        },
{
    if !prefix_matches(p, prefix) {
        return None;
    }
    if p.len() == prefix.len() {
        return Some(Vec::new());
    }
    if p[prefix.len()] == 92 {
        return Some(bytes_from(p, prefix.len() + 1));
    }
    None
}

/// Where a normalized virtual path goes (see `resolve_spec`).
pub fn resolve_path(allow_amfs_downloads: bool, normalized: &[u8]) -> (r: Option<VfsTarget>)
    ensures
        match resolve_spec(allow_amfs_downloads, normalized@) {
            None => r is None,
            Some((root, tail)) => r matches Some(t) && t.root == root && t.tail@ == tail,
        },
{
    let tmp: [u8; 13] = [101, 58, 92, 116, 109, 112, 105, 99, 102, 46, 105, 99, 102];
    let nthome: [u8; 33] = [99, 58, 92, 100, 111, 99, 117, 109, 101, 110, 116, 115, 32, 97, 110, 100, 32, 115, 101,
        116, 116, 105, 110, 103, 115, 92, 97, 112, 112, 117, 115, 101, 114];
    let w10home: [u8; 16] = [99, 58, 92, 117, 115, 101, 114, 115, 92, 97, 112, 112, 117, 115, 101, 114];
    let option: [u8; 15] = [99, 58, 92, 109, 111, 117, 110, 116, 92, 111, 112, 116, 105, 111, 110];
    let apm: [u8; 12] = [99, 58, 92, 109, 111, 117, 110, 116, 92, 97, 112, 109];
    proof {
        assert(tmp@ =~= vfs_tmp_icf());
        assert(nthome@ =~= vfs_nthome());
        assert(w10home@ =~= vfs_w10home());
        assert(option@ =~= vfs_option());
        assert(apm@ =~= vfs_apm());
    }
    if !allow_amfs_downloads && crate::frame::bytes_eq(normalized, tmp.as_slice()) {
        let name: Vec<u8> = vec![116u8, 109, 112, 73, 99, 102, 46, 105, 99, 102];
        assert(name@ =~= tmp_icf_name());
        return Some(VfsTarget { root: VfsRoot::Appdata, tail: name });
    }
    match strip_drive(normalized, 101) {
        Some(t) => {
            return Some(VfsTarget { root: VfsRoot::Amfs, tail: t });
        },
        None => {},
    }
    match strip_drive(normalized, 121) {
        Some(t) => {
            return Some(VfsTarget { root: VfsRoot::Appdata, tail: t });
        },
        None => {},
    }
    match strip_prefix_dir(normalized, nthome.as_slice()) {
        Some(t) => {
            return Some(VfsTarget { root: VfsRoot::Nthome, tail: t });
        },
        None => {},
    }
    match strip_prefix_dir(normalized, w10home.as_slice()) {
        Some(t) => {
            return Some(VfsTarget { root: VfsRoot::Nthome, tail: t });
        },
        None => {},
    }
    match strip_prefix_dir(normalized, option.as_slice()) {
        Some(t) => {
            return Some(VfsTarget { root: VfsRoot::Option, tail: t });
        },
        None => {},
    }
    match strip_prefix_dir(normalized, apm.as_slice()) {
        Some(t) => {
            return Some(VfsTarget { root: VfsRoot::Option, tail: t });
        },
        None => {},
    }
    None
}

/// Which option directory to use: the configured one when it is a non-empty
/// directory, else the first non-empty candidate (`option` beside the game,
/// `option` one level up, then `options` in both places), else the
/// configured one anyway. `None` stands for the configured directory.
pub open spec fn select_option_spec(configured_non_empty: bool, candidates_non_empty: [bool; 4]) -> Option<usize> {
    if configured_non_empty {
        None
    } else if candidates_non_empty@[0] {
        Some(0usize)
    } else if candidates_non_empty@[1] {
        Some(1usize)
    } else if candidates_non_empty@[2] {
        Some(2usize)
    } else if candidates_non_empty@[3] {
        Some(3usize)
    } else {
        None
    }
}

/// Chooses the option directory (see `select_option_spec`).
pub fn select_option_path(configured_non_empty: bool, candidates_non_empty: [bool; 4]) -> (r: Option<usize>)
    ensures
        r == select_option_spec(configured_non_empty, candidates_non_empty),
{
    if configured_non_empty {
        None
    } else if candidates_non_empty[0] {
        Some(0)
    } else if candidates_non_empty[1] {
        Some(1)
    } else if candidates_non_empty[2] {
        Some(2)
    } else if candidates_non_empty[3] {
        Some(3)
    } else {
        None
    }
}

/// The virtual file system once it is set up, if it is.
pub struct VfsState {
    pub config: Option<VfsConfig>,
}

impl VfsState {
    /// The AMFS directory, once configured.
    pub fn amfs_path(&self) -> (p: Option<String>)
        ensures
            match self.config {
                Some(c) => p matches Some(s) && s@ == c.amfs@,
                None => p is None,
            },
    {
        match &self.config {
            Some(c) => Some(c.amfs.clone()),
            None => None,
        }
    }

    /// The app data directory, once configured.
    pub fn appdata_path(&self) -> (p: Option<String>)
        ensures
            match self.config {
                Some(c) => p matches Some(s) && s@ == c.appdata@,
                None => p is None,
            },
    {
        match &self.config {
            Some(c) => Some(c.appdata.clone()),
            None => None,
        }
    }

    /// The directory of a root named by `kind`: `amfs`, `option` or
    /// `appdata`; `None` for any other name or before set-up.
    pub fn root_path(&self, kind: &str) -> (p: Option<String>)
        ensures
            match self.config {
                None => p is None,
                Some(c) => if kind@ == "amfs"@ {
                    p matches Some(s) && s@ == c.amfs@
                } else if kind@ == "option"@ {
                    p matches Some(s) && s@ == c.option@
                } else if kind@ == "appdata"@ {
                    p matches Some(s) && s@ == c.appdata@
                } else {
                    p is None
                },
            },
    {
        let c = match &self.config {
            Some(c) => c,
            None => {
                return None;
            },
        };
        proof {
            vstd::utf8::encode_utf8_decode_utf8(kind@);
            vstd::utf8::encode_utf8_decode_utf8("amfs"@);
            vstd::utf8::encode_utf8_decode_utf8("option"@);
            vstd::utf8::encode_utf8_decode_utf8("appdata"@);
        }
        let k = kind.as_bytes();
        if crate::proc_addr::bytes_equal(k, "amfs".as_bytes()) {
            Some(c.amfs.clone())
        } else if crate::proc_addr::bytes_equal(k, "option".as_bytes()) {
            Some(c.option.clone())
        } else if crate::proc_addr::bytes_equal(k, "appdata".as_bytes()) {
            Some(c.appdata.clone())
        } else {
            None
        }
    }
}

/// The UTF-8 bytes of the configured directory `root`.
pub open spec fn root_dir(c: VfsConfig, root: VfsRoot) -> Seq<u8> {
    match root {
        VfsRoot::Amfs => vstd::utf8::encode_utf8(c.amfs@),
        VfsRoot::Appdata => vstd::utf8::encode_utf8(c.appdata@),
        VfsRoot::Nthome => vstd::utf8::encode_utf8(c.nthome@),
        VfsRoot::Option => vstd::utf8::encode_utf8(c.option@),
    }
}

/// `tail` below directory `root`: the directory itself for an empty tail, the
/// tail alone below an empty directory, else the two joined by a backslash
/// unless the directory already ends in a separator.
pub open spec fn join_root_spec(root: Seq<u8>, tail: Seq<u8>) -> Seq<u8> {
    if tail.len() == 0 {
        root
    } else if root.len() == 0 {
        tail
    } else if root.last() == 92 || root.last() == 47 {
        root + tail
    } else {
        root + seq![92u8] + tail
    }
}

/// The full path a normalized virtual path is redirected to: `None` before
/// the virtual file system is set up and for a path that is not virtual,
/// else the path's tail joined onto the configured directory it lands in.
pub open spec fn resolve_full_spec(state: VfsState, normalized: Seq<u8>) -> Option<Seq<u8>> {
    match state.config {
        None => None,
        Some(c) => match resolve_spec(c.allow_amfs_downloads, normalized) {
            None => None,
            Some((root, tail)) => Some(join_root_spec(root_dir(c, root), tail)),
        },
    }
}

fn root_bytes(c: &VfsConfig, root: VfsRoot) -> (b: &[u8])
    ensures
        b@ == root_dir(*c, root),
{
    match root {
        VfsRoot::Amfs => c.amfs.as_str().as_bytes(),
        VfsRoot::Appdata => c.appdata.as_str().as_bytes(),
        VfsRoot::Nthome => c.nthome.as_str().as_bytes(),
        VfsRoot::Option => c.option.as_str().as_bytes(),
    }
}

/// `tail` below directory `root` (see `join_root_spec`).
pub fn join_root(root: &[u8], tail: &[u8]) -> (out: Vec<u8>)
    ensures
        out@ == join_root_spec(root@, tail@),
{
    let mut out: Vec<u8> = Vec::new();
    if tail.len() == 0 {
        crate::text::push_all(&mut out, root);
        assert(out@ =~= root@);
        return out;
    }
    if root.len() == 0 {
        crate::text::push_all(&mut out, tail);
        assert(out@ =~= tail@);
        return out;
    }
    crate::text::push_all(&mut out, root);
    let last = root[root.len() - 1];
    if last != 92 && last != 47 {
        out.push(92u8);
    }
    crate::text::push_all(&mut out, tail);
    assert(out@ =~= join_root_spec(root@, tail@));
    out
}

impl VfsState {
    /// The full path a normalized virtual path is redirected to (see
    /// `resolve_full_spec`), as UTF-8 bytes.
    pub fn resolve(&self, normalized: &[u8]) -> (r: Option<Vec<u8>>)
        ensures
            match resolve_full_spec(*self, normalized@) {
                None => r is None,
                Some(p) => r matches Some(v) && v@ == p,
            },
    {
        let c = match &self.config {
            Some(c) => c,
            None => {
                return None;
            },
        };
        match resolve_path(c.allow_amfs_downloads, normalized) {
            None => None,
            Some(t) => Some(join_root(root_bytes(c, t.root), t.tail.as_slice())),
        }
    }
}

/// Both user-profile directories, `c:\\documents and settings\\appuser` and
/// `c:\\users\\appuser`, and everything below them, land in the user's home
/// directory with the same remaining path.
pub proof fn lemma_user_profiles_land_in_home(allow_amfs_downloads: bool, rest: Seq<u8>)
    ensures
        resolve_spec(allow_amfs_downloads, vfs_nthome()) == Some((VfsRoot::Nthome, Seq::<u8>::empty())),
        resolve_spec(allow_amfs_downloads, vfs_w10home()) == Some((VfsRoot::Nthome, Seq::<u8>::empty())),
        resolve_spec(allow_amfs_downloads, vfs_nthome() + seq![92u8] + rest) == Some((VfsRoot::Nthome, rest)),
        resolve_spec(allow_amfs_downloads, vfs_w10home() + seq![92u8] + rest) == Some((VfsRoot::Nthome, rest)),
{
    let nt = vfs_nthome();
    let w10 = vfs_w10home();
    let a = nt + seq![92u8] + rest;
    let b = w10 + seq![92u8] + rest;
    assert(nt.take(nt.len() as int) =~= nt);
    assert(w10.take(w10.len() as int) =~= w10);
    assert(a.take(nt.len() as int) =~= nt);
    assert(b.take(w10.len() as int) =~= w10);
    assert(a.skip(nt.len() as int + 1) =~= rest);
    assert(b.skip(w10.len() as int + 1) =~= rest);
    assert(a[0] == 99 && b[0] == 99 && a[3] == 100 && b[3] == 117);
    assert(nt != vfs_tmp_icf()) by {
        assert(nt.len() != vfs_tmp_icf().len());
    }
    assert(w10 != vfs_tmp_icf()) by {
        assert(w10.len() != vfs_tmp_icf().len());
    }
    assert(a != vfs_tmp_icf()) by {
        assert(a.len() != vfs_tmp_icf().len());
    }
    assert(b != vfs_tmp_icf()) by {
        assert(b.len() != vfs_tmp_icf().len());
    }
    assert(!starts_with(w10, nt));
    assert(!starts_with(b, nt)) by {
        if b.len() >= nt.len() {
            assert(b.take(nt.len() as int)[3] != nt[3]);
        }
    }
}

/// The game's drives and option mounts land in their directories: anything
/// on drive `y:` in the app data directory, anything on drive `e:` in AMFS
/// (but for the shared ICF file while AMFS downloads are not allowed, which
/// goes to the app data directory), and both option mounts,
/// `c:\\mount\\option` and `c:\\mount\\apm`, in the option directory, each
/// with the path below it.
pub proof fn lemma_drives_and_mounts_land_in_their_roots(allow_amfs_downloads: bool, rest: Seq<u8>)
    ensures
        (rest.len() == 0 || !(0x80 <= rest[0] < 0xC0)) ==> resolve_spec(allow_amfs_downloads, seq![121u8, 58, 92] + rest)
            == Some((VfsRoot::Appdata, rest)),
        (rest.len() == 0 || !(0x80 <= rest[0] < 0xC0)) && (allow_amfs_downloads || seq![101u8, 58, 92] + rest
            != vfs_tmp_icf()) ==> resolve_spec(allow_amfs_downloads, seq![101u8, 58, 92] + rest) == Some((VfsRoot::Amfs, rest)),
        !allow_amfs_downloads ==> resolve_spec(allow_amfs_downloads, vfs_tmp_icf()) is Some && resolve_spec(
            allow_amfs_downloads,
            vfs_tmp_icf(),
        ).unwrap().0 == VfsRoot::Appdata,
        resolve_spec(allow_amfs_downloads, vfs_option()) == Some((VfsRoot::Option, Seq::<u8>::empty())),
        resolve_spec(allow_amfs_downloads, vfs_apm()) == Some((VfsRoot::Option, Seq::<u8>::empty())),
        resolve_spec(allow_amfs_downloads, vfs_option() + seq![92u8] + rest) == Some((VfsRoot::Option, rest)),
        resolve_spec(allow_amfs_downloads, vfs_apm() + seq![92u8] + rest) == Some((VfsRoot::Option, rest)),
{
    let y = seq![121u8, 58, 92] + rest;
    let e = seq![101u8, 58, 92] + rest;
    assert(y.skip(3) =~= rest);
    assert(e.skip(3) =~= rest);
    if rest.len() > 0 {
        assert(y[3] == rest[0] && e[3] == rest[0]);
    }
    let op = vfs_option();
    let apm = vfs_apm();
    let a = op + seq![92u8] + rest;
    let b = apm + seq![92u8] + rest;
    assert(op.take(op.len() as int) =~= op);
    assert(apm.take(apm.len() as int) =~= apm);
    assert(a.take(op.len() as int) =~= op);
    assert(b.take(apm.len() as int) =~= apm);
    assert(a.skip(op.len() as int + 1) =~= rest);
    assert(b.skip(apm.len() as int + 1) =~= rest);
    assert(op != vfs_tmp_icf()) by {
        assert(op.len() != vfs_tmp_icf().len());
    }
    assert(apm != vfs_tmp_icf()) by {
        assert(apm[0] != vfs_tmp_icf()[0]);
    }
    assert(a != vfs_tmp_icf()) by {
        assert(a[0] != vfs_tmp_icf()[0]);
    }
    assert(b != vfs_tmp_icf()) by {
        assert(b[0] != vfs_tmp_icf()[0]);
    }
    assert(y != vfs_tmp_icf()) by {
        assert(y[0] != vfs_tmp_icf()[0]);
    }
    assert(!starts_with(op, vfs_nthome()) && !starts_with(op, vfs_w10home()));
    assert(!starts_with(apm, vfs_nthome()) && !starts_with(apm, vfs_w10home()));
    assert(!starts_with(apm, op));
    assert(!starts_with(a, vfs_nthome())) by {
        if a.len() >= vfs_nthome().len() {
            assert(a.take(vfs_nthome().len() as int)[3] != vfs_nthome()[3]);
        }
    }
    assert(!starts_with(a, vfs_w10home())) by {
        if a.len() >= vfs_w10home().len() {
            assert(a.take(vfs_w10home().len() as int)[3] != vfs_w10home()[3]);
        }
    }
    assert(!starts_with(b, vfs_nthome())) by {
        if b.len() >= vfs_nthome().len() {
            assert(b.take(vfs_nthome().len() as int)[3] != vfs_nthome()[3]);
        }
    }
    assert(!starts_with(b, vfs_w10home())) by {
        if b.len() >= vfs_w10home().len() {
            assert(b.take(vfs_w10home().len() as int)[3] != vfs_w10home()[3]);
        }
    }
    assert(!starts_with(b, op)) by {
        if b.len() >= op.len() {
            assert(b.take(op.len() as int)[9] != op[9]);
        }
    }
}

/// The AMDaemon functions the virtual file system answers itself.
#[derive(Clone, Copy, PartialEq, Eq, Debug, Structural)]
pub enum OptionProc {
    /// `System_getAppRootPath`.
    AppRootPath,
    /// `AppImage_getOptionMountRootPath`.
    OptionMountRootPath,
}

/// The function that stands in for the AMDaemon export `name`, if any.
pub fn option_proc(name: &str) -> (r: Option<OptionProc>)
    ensures
        r == (if name@ == "System_getAppRootPath"@ {
            Some(OptionProc::AppRootPath)
        } else if name@ == "AppImage_getOptionMountRootPath"@ {
            Some(OptionProc::OptionMountRootPath)
        } else {
            None
        }),
{
    proof {
        vstd::utf8::encode_utf8_decode_utf8(name@);
        vstd::utf8::encode_utf8_decode_utf8("System_getAppRootPath"@);
        vstd::utf8::encode_utf8_decode_utf8("AppImage_getOptionMountRootPath"@);
    }
    let n = name.as_bytes();
    if crate::proc_addr::bytes_equal(n, "System_getAppRootPath".as_bytes()) {
        Some(OptionProc::AppRootPath)
    } else if crate::proc_addr::bytes_equal(n, "AppImage_getOptionMountRootPath".as_bytes()) {
        Some(OptionProc::OptionMountRootPath)
    } else {
        None
    }
}

/// The registry key that tells the game where its mounts are: AMFS on `E:\`
/// and app data on `Y:\`.
pub fn mount_key() -> (k: KeySpec)
    ensures
        k.root == HKEY_LOCAL_MACHINE && k.path@ == "SYSTEM\\SEGA\\SystemProperty\\mount"@,
        k.values@.len() == 2,
        is_string_value(k.values@[0], "AMFS"@, "E:\\"@),
        is_string_value(k.values@[1], "APPDATA"@, "Y:\\"@),
{
    KeySpec {
        root: HKEY_LOCAL_MACHINE,
        path: "SYSTEM\\SEGA\\SystemProperty\\mount",
        values: vec![RegValue::string("AMFS", "E:\\"), RegValue::string("APPDATA", "Y:\\")],
    }
}

} // verus!
