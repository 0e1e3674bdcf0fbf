use vstd::prelude::*;
use vstd::string::StringSliceAdditionalSpecFns;
use std::collections::HashMap;
use crate::unlocker::{bytes_eq_ignore_case, eq_ignore_case};
use crate::wide::{encode_utf16, units_to_le_bytes, utf16_le_bytes, utf16_units};

verus! {

broadcast use vstd::std_specs::hash::group_hash_axioms;

pub const HKEY_CLASSES_ROOT: usize = 0x8000_0000;
pub const HKEY_CURRENT_USER: usize = 0x8000_0001;
pub const HKEY_LOCAL_MACHINE: usize = 0x8000_0002;
pub const HKEY_USERS: usize = 0x8000_0003;

/// Registry value types.
pub const REG_SZ: u32 = 1;
pub const REG_BINARY: u32 = 3;
pub const REG_DWORD: u32 = 4;

/// Win32 status codes of the registry calls.
pub const ERROR_SUCCESS: u32 = 0;
pub const ERROR_FILE_NOT_FOUND: u32 = 2;
pub const ERROR_INVALID_PARAMETER: u32 = 87;
pub const ERROR_MORE_DATA: u32 = 234;
pub const ERROR_NO_MORE_ITEMS: u32 = 259;
/// Disposition reported when a key is "created" that already exists.
pub const REG_OPENED_EXISTING_KEY: u32 = 2;

/// A value of an emulated registry key: its name, type and raw data.
pub struct RegValue {
    pub name: String,
    pub ty: u32,
    pub bytes: Vec<u8>,
}

/// `v` as four little-endian bytes.
pub open spec fn le32(v: u32) -> Seq<u8> {
    seq![(v % 256) as u8, ((v / 256) % 256) as u8, ((v / 65536) % 256) as u8, (v / 16777216) as u8]
}

/// The data of a string value: the UTF-16 text and a terminating NUL, as
/// little-endian bytes.
pub open spec fn reg_sz_bytes(text: Seq<char>) -> Seq<u8> {
    utf16_le_bytes(utf16_units(text).push(0))
}

impl RegValue {
    /// A binary value.
    pub fn binary(name: &str, bytes: Vec<u8>) -> (v: Self)
        ensures
            v.name@ == name@,
            v.ty == REG_BINARY,
            v.bytes@ == bytes@,
    {
        RegValue { name: name.to_owned(), ty: REG_BINARY, bytes }
    }

    /// A 32-bit value.
    pub fn dword(name: &str, value: u32) -> (v: Self)
        ensures
            v.name@ == name@,
            v.ty == REG_DWORD,
            v.bytes@ == le32(value),
    {
        let bytes = vec![
            (value % 256) as u8,
            ((value / 256) % 256) as u8,
            ((value / 65536) % 256) as u8,
            (value / 16777216) as u8,
        ];
        assert(bytes@ =~= le32(value));
        RegValue { name: name.to_owned(), ty: REG_DWORD, bytes }
    }

    /// A string value.
    pub fn string(name: &str, value: &str) -> (v: Self)
        ensures
            v.name@ == name@,
            v.ty == REG_SZ,
            v.bytes@ == reg_sz_bytes(value@),
    {
        let mut units = encode_utf16(value);
        units.push(0);
        let bytes = units_to_le_bytes(units.as_slice());
        RegValue { name: name.to_owned(), ty: REG_SZ, bytes }
    }
}

/// An emulated key: the predefined root it hangs under, its canonical path
/// (bytes of UTF-8 text) and its values.
pub struct VirtualKey {
    pub root: usize,
    pub path: Vec<u8>,
    pub values: Vec<RegValue>,
}

/// The emulated part of the registry: the keys in the order they were
/// registered, and the open handles that lead to them by index.
pub struct VirtualRegistry {
    pub keys: Vec<VirtualKey>,
    pub handles: HashMap<usize, usize>,
}

/// `s` without its leading backslashes.
pub open spec fn trim_start_backslashes(s: Seq<u8>) -> Seq<u8>
    decreases s.len(),
{
    if s.len() > 0 && s[0] == 92 {
        trim_start_backslashes(s.skip(1))
    } else {
        s
    }
}

/// `s` without its trailing backslashes.
pub open spec fn trim_end_backslashes(s: Seq<u8>) -> Seq<u8>
    decreases s.len(),
{
    if s.len() > 0 && s.last() == 92 {
        trim_end_backslashes(s.drop_last())
    } else {
        s
    }
}

/// A byte with `/` turned into `\`.
pub open spec fn to_backslash(b: u8) -> u8 {
    if b == 47 { 92 } else { b }
}

/// The canonical form of a key path: forward slashes become backslashes and
/// backslashes at either end are dropped.
pub open spec fn canonical_path_spec(path: Seq<u8>) -> Seq<u8> {
    trim_end_backslashes(trim_start_backslashes(path.map_values(|b: u8| to_backslash(b))))
}

/// The canonical form of a key path, as bytes.
pub fn canonical_path(path: &[u8]) -> (out: Vec<u8>)
    ensures
        out@ == canonical_path_spec(path@),
{
    let n = path.len();
    let mut mapped: Vec<u8> = Vec::new();
    let mut i: usize = 0;
    while i < n
        invariant
            n == path@.len(),
            i <= n,
            mapped@ == path@.take(i as int).map_values(|b: u8| to_backslash(b)),
        decreases n - i,
    {
        let b = path[i];
        let c: u8 = if b == 47 { 92 } else { b };
        proof {
            assert(path@.take(i + 1).map_values(|b: u8| to_backslash(b)) =~= path@.take(i as int).map_values(
                |b: u8| to_backslash(b),
            ).push(c));
        }
        mapped.push(c);
        i = i + 1;
    }
    assert(path@.take(n as int) =~= path@);
    let ghost m = mapped@;
    assert(m.skip(0) =~= m);
    let mut start: usize = 0;
    while start < mapped.len() && mapped[start] == 92
        invariant
            mapped@ == m,
            start <= m.len(),
            trim_start_backslashes(m.skip(start as int)) == trim_start_backslashes(m),
        decreases m.len() - start,
    {
        proof {
            assert(m.skip(start as int).skip(1) =~= m.skip(start + 1));
        }
        start = start + 1;
    }
    let ghost t = m.skip(start as int);
    assert(trim_start_backslashes(t) == t);
    let mut end: usize = mapped.len();
    while end > start && mapped[end - 1] == 92
        invariant
            mapped@ == m,
            start <= end <= m.len(),
            t == m.skip(start as int),
            trim_end_backslashes(m.subrange(start as int, end as int)) == trim_end_backslashes(t),
        decreases end,
    {
        proof {
            assert(m.subrange(start as int, end as int).drop_last() =~= m.subrange(start as int, end - 1));
        }
        end = end - 1;
    }
    assert(m.subrange(start as int, m.len() as int) =~= t);
    let mut out: Vec<u8> = Vec::new();
    let mut k: usize = start;
    while k < end
        invariant
            mapped@ == m,
            start <= k <= end <= m.len(),
            out@ == m.subrange(start as int, k as int),
        decreases end - k,
    {
        proof {
            assert(m.subrange(start as int, k + 1) =~= m.subrange(start as int, k as int).push(m[k as int]));
        }
        out.push(mapped[k]);
        k = k + 1;
    }
    out
}

/// Whether `handle` is one of the predefined root keys.
pub open spec fn is_predefined_root(handle: usize) -> bool {
    handle == HKEY_CLASSES_ROOT || handle == HKEY_CURRENT_USER || handle == HKEY_LOCAL_MACHINE || handle == HKEY_USERS
}

/// The index of the first key at or after `i` under `root` whose path equals
/// `path` ignoring ASCII case.
pub open spec fn find_key_from(keys: Seq<VirtualKey>, root: usize, path: Seq<u8>, i: int) -> Option<int>
    decreases keys.len() - i,
{
    if i < 0 || i >= keys.len() {
        None
    } else if keys[i].root == root && eq_ignore_case(keys[i].path@, path) {
        Some(i)
    } else {
        find_key_from(keys, root, path, i + 1)
    }
}

/// The index of the first key under `root` at `path`, ignoring ASCII case.
pub open spec fn find_key(keys: Seq<VirtualKey>, root: usize, path: Seq<u8>) -> Option<int> {
    find_key_from(keys, root, path, 0)
}

pub proof fn lemma_find_key_from(keys: Seq<VirtualKey>, root: usize, path: Seq<u8>, i: int)
    requires
        0 <= i,
    ensures
        match find_key_from(keys, root, path, i) {
            Some(j) => i <= j < keys.len() && keys[j].root == root && eq_ignore_case(keys[j].path@, path)
                && forall|k: int| i <= k < j ==> !(keys[k].root == root && eq_ignore_case(#[trigger] keys[k].path@, path)),
            None => forall|k: int| i <= k < keys.len() ==> !(keys[k].root == root && eq_ignore_case(#[trigger] keys[k].path@, path)),
        },
    decreases keys.len() - i,
{
    if i < keys.len() {
        lemma_find_key_from(keys, root, path, i + 1);
    }
}

fn find_key_exec(keys: &Vec<VirtualKey>, root: usize, path: &[u8]) -> (r: Option<usize>)
    ensures
        r matches Some(i) ==> find_key(keys@, root, path@) == Some(i as int) && i < keys@.len(),
        r is None ==> find_key(keys@, root, path@) is None,
{
    proof {
        lemma_find_key_from(keys@, root, path@, 0);
    }
    let mut i: usize = 0;
    while i < keys.len()
        invariant
            i <= keys@.len(),
            find_key(keys@, root, path@) == find_key_from(keys@, root, path@, i as int),
        decreases keys@.len() - i,
    {
        if keys[i].root == root && bytes_eq_ignore_case(keys[i].path.as_slice(), path) {
            return Some(i);
        }
        i = i + 1;
    }
    None
}

impl VirtualRegistry {
    /// An empty registry.
    pub fn new() -> (r: Self)
        ensures
            r.keys@.len() == 0,
            r.handles@ == Map::<usize, usize>::empty(),
    {
        VirtualRegistry { keys: Vec::new(), handles: HashMap::new() }
    }
}

/// How registering key `canon` under `root` with `values` turns `k0` into
/// `k1`.
pub open spec fn push_key_post(k0: Seq<VirtualKey>, k1: Seq<VirtualKey>, root: usize, canon: Seq<u8>, values: Seq<RegValue>) -> bool {
    match find_key(k0, root, canon) {
        Some(i) => {
            &&& k1.len() == k0.len()
            &&& k1[i].root == k0[i].root
            &&& k1[i].path@ == k0[i].path@
            &&& k1[i].values@ == values
            &&& forall|j: int| 0 <= j < k0.len() && j != i ==> #[trigger] k1[j] == k0[j]
        },
        None => {
            &&& k1.len() == k0.len() + 1
            &&& forall|j: int| 0 <= j < k0.len() ==> #[trigger] k1[j] == k0[j]
            &&& k1[k0.len() as int].root == root
            &&& k1[k0.len() as int].path@ == canon
            &&& k1[k0.len() as int].values@ == values
        },
    }
}

/// Registers key `path` under `root` with `values`. A key already registered
/// at the same place (paths compared ignoring ASCII case after
/// canonicalisation) keeps its index and path and takes the new values;
/// otherwise the key is added at the end.
pub fn push_key(reg: &mut VirtualRegistry, root: usize, path: &str, values: Vec<RegValue>)
    ensures
        final(reg).handles@ == old(reg).handles@,
        push_key_post(old(reg).keys@, final(reg).keys@, root, canonical_path_spec(path.spec_bytes()), values@),
{
    let canon = canonical_path(path.as_bytes());
    match find_key_exec(&reg.keys, root, canon.as_slice()) {
        Some(i) => {
            reg.keys[i].values = values;
            assert(reg.keys@.len() == old(reg).keys@.len());
        },
        None => {
            reg.keys.push(VirtualKey { root, path: canon, values });
        },
    }
}

/// A registered key is found again: after registering `canon` under `root`,
/// looking up `canon` under `root` finds a key holding exactly the values
/// registered, and at most one more key than before exists.
pub proof fn lemma_pushed_key_is_found(k0: Seq<VirtualKey>, k1: Seq<VirtualKey>, root: usize, canon: Seq<u8>, values: Seq<RegValue>)
    requires
        push_key_post(k0, k1, root, canon, values),
    ensures
        find_key(k1, root, canon) matches Some(i) && k1[i].root == root && k1[i].values@ == values,
        k0.len() <= k1.len() <= k0.len() + 1,
{
    lemma_find_key_from(k0, root, canon, 0);
    lemma_find_key_from(k1, root, canon, 0);
    match find_key(k0, root, canon) {
        Some(i) => {
            assert forall|k: int| 0 <= k < i implies !(k1[k].root == root && eq_ignore_case(#[trigger] k1[k].path@, canon)) by {
                assert(k1[k] == k0[k]);
            }
            assert(k1[i].root == root && eq_ignore_case(k1[i].path@, canon));
            lemma_find_key_prefix(k1, root, canon, i);
        },
        None => {
            let n = k0.len() as int;
            assert forall|k: int| 0 <= k < n implies !(k1[k].root == root && eq_ignore_case(#[trigger] k1[k].path@, canon)) by {
                assert(k1[k] == k0[k]);
            }
            assert(eq_ignore_case(k1[n].path@, canon));
            lemma_find_key_prefix(k1, root, canon, n);
        },
    }
}

/// No two registered keys lie at the same place: same root and paths equal
/// ignoring ASCII case.
pub open spec fn keys_distinct(keys: Seq<VirtualKey>) -> bool {
    forall|i: int, j: int|
        0 <= i < j < keys.len() ==> !(#[trigger] keys[i].root == #[trigger] keys[j].root && eq_ignore_case(keys[i].path@, keys[j].path@))
}

/// Registering a key keeps registered keys distinct: a key at a place already
/// taken replaces that key's values, and a new key goes to a free place.
pub proof fn lemma_push_key_keeps_keys_distinct(
    k0: Seq<VirtualKey>,
    k1: Seq<VirtualKey>,
    root: usize,
    canon: Seq<u8>,
    values: Seq<RegValue>,
)
    requires
        keys_distinct(k0),
        push_key_post(k0, k1, root, canon, values),
    ensures
        keys_distinct(k1),
{
    lemma_find_key_from(k0, root, canon, 0);
    match find_key(k0, root, canon) {
        Some(n) => {
            assert forall|i: int, j: int| 0 <= i < j < k1.len() implies !(#[trigger] k1[i].root == #[trigger] k1[j].root
                && eq_ignore_case(k1[i].path@, k1[j].path@)) by {
                assert(k0[i].root == k0[j].root ==> !eq_ignore_case(k0[i].path@, k0[j].path@));
                if i != n {
                    assert(k1[i] == k0[i]);
                }
                if j != n {
                    assert(k1[j] == k0[j]);
                }
            }
        },
        None => {
            let n = k0.len() as int;
            assert forall|i: int, j: int| 0 <= i < j < k1.len() implies !(#[trigger] k1[i].root == #[trigger] k1[j].root
                && eq_ignore_case(k1[i].path@, k1[j].path@)) by {
                assert(k1[i] == k0[i]);
                if j < n {
                    assert(k1[j] == k0[j]);
                    assert(k0[i].root == k0[j].root ==> !eq_ignore_case(k0[i].path@, k0[j].path@));
                } else {
                    assert(!(k0[i].root == root && eq_ignore_case(k0[i].path@, canon)));
                }
            }
        },
    }
}

/// The first matching key is `i` when key `i` matches and none before it does.
pub proof fn lemma_find_key_prefix(keys: Seq<VirtualKey>, root: usize, path: Seq<u8>, i: int)
    requires
        0 <= i < keys.len(),
        keys[i].root == root && eq_ignore_case(keys[i].path@, path),
        forall|k: int| 0 <= k < i ==> !(keys[k].root == root && eq_ignore_case(#[trigger] keys[k].path@, path)),
    ensures
        find_key(keys, root, path) == Some(i),
{
    lemma_find_key_from(keys, root, path, 0);
    match find_key(keys, root, path) {
        Some(j) => {
            if j < i {
                assert(keys[j].root == root && eq_ignore_case(keys[j].path@, path));
            } else if j > i {
                assert(!(keys[i].root == root && eq_ignore_case(keys[i].path@, path)));
            }
        },
        None => {
            assert(!(keys[i].root == root && eq_ignore_case(keys[i].path@, path)));
        },
    }
}

/// The key an open handle leads to, if it is an emulated one.
pub open spec fn key_of_handle(reg: VirtualRegistry, handle: usize) -> Option<int> {
    if reg.handles@.contains_key(handle) && (reg.handles@[handle] as int) < reg.keys@.len() {
        Some(reg.handles@[handle] as int)
    } else {
        None
    }
}

fn key_index_of_handle(reg: &VirtualRegistry, handle: usize) -> (r: Option<usize>)
    ensures
        r matches Some(i) ==> key_of_handle(*reg, handle) == Some(i as int) && i < reg.keys@.len(),
        r is None ==> key_of_handle(*reg, handle) is None,
{
    match reg.handles.get(&handle) {
        Some(id) => {
            if *id < reg.keys.len() {
                Some(*id)
            } else {
                None
            }
        },
        None => None,
    }
}

/// Where `subkey` under `parent` lies: under a predefined root directly, or
/// below an emulated key (joined with a backslash unless either side is
/// empty). `None` when `parent` is neither.
pub open spec fn resolve_candidate_spec(reg: VirtualRegistry, parent: usize, subkey: Seq<u8>) -> Option<(usize, Seq<u8>)> {
    let sub = canonical_path_spec(subkey);
    if is_predefined_root(parent) {
        Some((parent, sub))
    } else {
        match key_of_handle(reg, parent) {
            Some(i) => {
                let key = reg.keys@[i];
                if sub.len() == 0 {
                    Some((key.root, key.path@))
                } else if key.path@.len() == 0 {
                    Some((key.root, sub))
                } else {
                    Some((key.root, key.path@ + seq![92u8] + sub))
                }
            },
            None => None,
        }
    }
}

/// The emulated key that `subkey` under `parent` names, if any.
pub open spec fn resolve_key_spec(reg: VirtualRegistry, parent: usize, subkey: Seq<u8>) -> Option<int> {
    match resolve_candidate_spec(reg, parent, subkey) {
        Some((root, path)) => find_key(reg.keys@, root, path),
        None => None,
    }
}

/// Where `subkey` under `parent` lies (see `resolve_candidate_spec`).
pub fn resolve_candidate(reg: &VirtualRegistry, parent: usize, subkey: &str) -> (r: Option<(usize, Vec<u8>)>)
    ensures
        match resolve_candidate_spec(*reg, parent, subkey.spec_bytes()) {
            Some((root, path)) => r matches Some((rr, p)) && rr == root && p@ == path,
            None => r is None,
        },
{
    let sub = canonical_path(subkey.as_bytes());
    if parent == HKEY_CLASSES_ROOT || parent == HKEY_CURRENT_USER || parent == HKEY_LOCAL_MACHINE || parent == HKEY_USERS {
        return Some((parent, sub));
    }
    let i = match key_index_of_handle(reg, parent) {
        Some(i) => i,
        None => {
            return None;
        },
    };
    let key = &reg.keys[i];
    if sub.len() == 0 {
        Some((key.root, vstd::slice::slice_to_vec(key.path.as_slice())))
    } else if key.path.len() == 0 {
        Some((key.root, sub))
    } else {
        let mut joined = vstd::slice::slice_to_vec(key.path.as_slice());
        joined.push(92u8);
        let mut k: usize = 0;
        let ghost base = joined@;
        while k < sub.len()
            invariant
                k <= sub@.len(),
                joined@ == base + sub@.take(k as int),
            decreases sub@.len() - k,
        {
            proof {
                assert(sub@.take(k + 1) =~= sub@.take(k as int).push(sub@[k as int]));
            }
            joined.push(sub[k]);
            k = k + 1;
        }
        assert(sub@.take(sub@.len() as int) =~= sub@);
        assert(joined@ =~= key.path@ + seq![92u8] + sub@);
        Some((key.root, joined))
    }
}

/// The emulated key that `subkey` under `parent` names, if any.
pub fn resolve_key_id(reg: &VirtualRegistry, parent: usize, subkey: &str) -> (r: Option<usize>)
    ensures
        r matches Some(i) ==> resolve_key_spec(*reg, parent, subkey.spec_bytes()) == Some(i as int) && i < reg.keys@.len(),
        r is None ==> resolve_key_spec(*reg, parent, subkey.spec_bytes()) is None,
{
    match resolve_candidate(reg, parent, subkey) {
        Some((root, path)) => find_key_exec(&reg.keys, root, path.as_slice()),
        None => None,
    }
}

/// What an open or create of `subkey` under `parent` does.
pub enum OpenDecision {
    /// The output handle pointer is missing.
    InvalidParameter,
    /// The call goes to the real registry.
    PassThrough,
    /// An emulated key: a real handle is to be opened on `HKLM\SOFTWARE` for
    /// reading and, on success, bound to this key index with `bind_handle`.
    Virtual(usize),
}

/// Decides an open or create of `subkey` under `parent`.
pub fn open_key_request(reg: &VirtualRegistry, parent: usize, subkey: &str, has_out: bool) -> (d: OpenDecision)
    ensures
        !has_out ==> d is InvalidParameter,
        has_out ==> match resolve_key_spec(*reg, parent, subkey.spec_bytes()) {
            Some(i) => d == OpenDecision::Virtual(i as usize),
            None => d is PassThrough,
        },
{
    if !has_out {
        return OpenDecision::InvalidParameter;
    }
    match resolve_key_id(reg, parent, subkey) {
        Some(i) => OpenDecision::Virtual(i),
        None => OpenDecision::PassThrough,
    }
}

impl VirtualRegistry {
    /// Records that `handle` leads to key `key_id`.
    pub fn bind_handle(&mut self, handle: usize, key_id: usize)
        ensures
            final(self).keys@ == old(self).keys@,
            final(self).handles@ == old(self).handles@.insert(handle, key_id),
    {
        self.handles.insert(handle, key_id);
    }

    /// Forgets `handle` when it is closed.
    pub fn close_key(&mut self, handle: usize)
        ensures
            final(self).keys@ == old(self).keys@,
            final(self).handles@ == old(self).handles@.remove(handle),
    {
        self.handles.remove(&handle);
    }
}

/// Which out-pointers a value query was given: the type, the data length
/// (with the capacity it holds on entry) and the data buffer.
pub struct ValueRequest {
    pub has_type: bool,
    pub data_capacity: Option<u32>,
    pub has_data: bool,
}

/// The answer to a value query: the status and what is written to each
/// out-pointer (`None`: left untouched).
pub struct RegReply {
    pub status: u32,
    pub data_type: Option<u32>,
    pub data_len: Option<u32>,
    pub data: Option<Vec<u8>>,
}

/// The answer to `req` for value `v`: the type when asked for; the data
/// length when a length pointer is given, then `ERROR_MORE_DATA` if a buffer
/// is given that is too small; `ERROR_INVALID_PARAMETER` for a buffer without
/// a length; otherwise success, with the data copied when there is a buffer
/// and any data.
pub open spec fn value_reply(v: RegValue, req: ValueRequest, r: RegReply) -> bool {
    let n = v.bytes@.len();
    &&& r.data_type == (if req.has_type { Some(v.ty) } else { None })
    &&& match req.data_capacity {
        Some(cap) => {
            &&& r.data_len == Some(n as u32)
            &&& if req.has_data && (cap as int) < n {
                r.status == ERROR_MORE_DATA && r.data is None
            } else {
                &&& r.status == ERROR_SUCCESS
                &&& if req.has_data && n > 0 { r.data matches Some(d) && d@ == v.bytes@ } else { r.data is None }
            }
        },
        None => {
            &&& r.data_len is None
            &&& r.data is None
            &&& r.status == (if req.has_data { ERROR_INVALID_PARAMETER } else { ERROR_SUCCESS })
        },
    }
}

fn write_value(v: &RegValue, req: &ValueRequest) -> (r: RegReply)
    ensures
        value_reply(*v, *req, r),
{
    let n = v.bytes.len();
    let data_type = if req.has_type { Some(v.ty) } else { None };
    match req.data_capacity {
        Some(cap) => {
            let len = n as u32;
            if req.has_data && (cap as usize) < n {
                return RegReply { status: ERROR_MORE_DATA, data_type, data_len: Some(len), data: None };
            }
            let data = if req.has_data && n > 0 { Some(vstd::slice::slice_to_vec(v.bytes.as_slice())) } else { None };
            RegReply { status: ERROR_SUCCESS, data_type, data_len: Some(len), data }
        },
        None => {
            let status = if req.has_data { ERROR_INVALID_PARAMETER } else { ERROR_SUCCESS };
            RegReply { status, data_type, data_len: None, data: None }
        },
    }
}

/// The index of the first value at or after `i` named `name`, ignoring ASCII
/// case.
pub open spec fn find_value_from(values: Seq<RegValue>, name: Seq<u8>, i: int) -> Option<int>
    decreases values.len() - i,
{
    if i < 0 || i >= values.len() {
        None
    } else if eq_ignore_case(vstd::utf8::encode_utf8(values[i].name@), name) {
        Some(i)
    } else {
        find_value_from(values, name, i + 1)
    }
}

/// The index of the first value named `name`, ignoring ASCII case.
pub open spec fn find_value(values: Seq<RegValue>, name: Seq<u8>) -> Option<int> {
    find_value_from(values, name, 0)
}

pub proof fn lemma_find_value_from(values: Seq<RegValue>, name: Seq<u8>, i: int)
    requires
        0 <= i,
    ensures
        match find_value_from(values, name, i) {
            Some(j) => i <= j < values.len(),
            None => true,
        },
    decreases values.len() - i,
{
    if i < values.len() {
        lemma_find_value_from(values, name, i + 1);
    }
}

fn find_value_exec(values: &Vec<RegValue>, name: &[u8]) -> (r: Option<usize>)
    ensures
        r matches Some(j) ==> find_value(values@, name@) == Some(j as int) && j < values@.len(),
        r is None ==> find_value(values@, name@) is None,
{
    proof {
        lemma_find_value_from(values@, name@, 0);
    }
    let mut i: usize = 0;
    while i < values.len()
        invariant
            i <= values@.len(),
            find_value(values@, name@) == find_value_from(values@, name@, i as int),
            match find_value_from(values@, name@, i as int) {
                Some(j) => i <= j < values@.len(),
                None => true,
            },
        decreases values@.len() - i,
    {
        proof {
            lemma_find_value_from(values@, name@, i + 1);
        }
        if bytes_eq_ignore_case(values[i].name.as_str().as_bytes(), name) {
            return Some(i);
        }
        i = i + 1;
    }
    None
}

/// The answer to a query of value `name` of the key at index `k`.
pub open spec fn query_reply(key: VirtualKey, name: Seq<u8>, req: ValueRequest, r: RegReply) -> bool {
    match find_value(key.values@, name) {
        Some(j) => value_reply(key.values@[j], req, r),
        None => r.status == ERROR_FILE_NOT_FOUND && r.data_type is None && r.data_len is None && r.data is None,
    }
}

fn query_key(key: &VirtualKey, name: &[u8], req: &ValueRequest) -> (r: RegReply)
    ensures
        query_reply(*key, name@, *req, r),
{
    match find_value_exec(&key.values, name) {
        Some(j) => write_value(&key.values[j], req),
        None => RegReply { status: ERROR_FILE_NOT_FOUND, data_type: None, data_len: None, data: None },
    }
}

/// Answers a value query on `handle` (`RegQueryValueEx`): `None` when the
/// handle is not an emulated key and the real registry is to answer.
pub fn query_value(reg: &VirtualRegistry, handle: usize, name: &str, req: &ValueRequest) -> (r: Option<RegReply>)
    ensures
        match key_of_handle(*reg, handle) {
            Some(k) => r matches Some(reply) && query_reply(reg.keys@[k], name.spec_bytes(), *req, reply),
            None => r is None,
        },
{
    match key_index_of_handle(reg, handle) {
        Some(k) => Some(query_key(&reg.keys[k], name.as_bytes(), req)),
        None => None,
    }
}

/// Answers a value query on `subkey` below `parent` (`RegGetValue`): `None`
/// when that is not an emulated key and the real registry is to answer.
pub fn get_value(reg: &VirtualRegistry, parent: usize, subkey: &str, name: &str, req: &ValueRequest) -> (r: Option<RegReply>)
    ensures
        match resolve_key_spec(*reg, parent, subkey.spec_bytes()) {
            Some(k) => r matches Some(reply) && query_reply(reg.keys@[k], name.spec_bytes(), *req, reply),
            None => r is None,
        },
{
    match resolve_key_id(reg, parent, subkey) {
        Some(k) => Some(query_key(&reg.keys[k], name.as_bytes(), req)),
        None => None,
    }
}

/// What `RegQueryInfoKey` reports for an emulated key.
pub struct KeyInfo {
    pub values: u32,
    /// Longest value name, in UTF-16 units.
    pub max_value_name_len: u32,
    /// Longest value data, in bytes.
    pub max_value_len: u32,
    pub subkeys: u32,
}

/// The longest UTF-16 value name among `values`.
pub open spec fn max_name_units(values: Seq<RegValue>) -> nat
    decreases values.len(),
{
    if values.len() == 0 {
        0
    } else {
        let rest = max_name_units(values.drop_last());
        let n = utf16_units(values.last().name@).len();
        if n > rest { n } else { rest }
    }
}

/// The longest value data among `values`.
pub open spec fn max_data_len(values: Seq<RegValue>) -> nat
    decreases values.len(),
{
    if values.len() == 0 {
        0
    } else {
        let rest = max_data_len(values.drop_last());
        let n = values.last().bytes@.len();
        if n > rest { n } else { rest }
    }
}

/// Answers `RegQueryInfoKey` on `handle`: `None` when the handle is not an
/// emulated key. Counts are reported truncated to 32 bits.
pub fn query_info(reg: &VirtualRegistry, handle: usize) -> (r: Option<KeyInfo>)
    ensures
        match key_of_handle(*reg, handle) {
            Some(k) => r matches Some(info) && {
                let vals = reg.keys@[k].values@;
                &&& info.values == vals.len() as u32
                &&& info.max_value_name_len == max_name_units(vals) as u32
                &&& info.max_value_len == max_data_len(vals) as u32
                &&& info.subkeys == 0
            },
            None => r is None,
        },
{
    let k = match key_index_of_handle(reg, handle) {
        Some(k) => k,
        None => {
            return None;
        },
    };
    let values = &reg.keys[k].values;
    let mut max_name: usize = 0;
    let mut max_len: usize = 0;
    let mut i: usize = 0;
    while i < values.len()
        invariant
            i <= values@.len(),
            max_name == max_name_units(values@.take(i as int)),
            max_len == max_data_len(values@.take(i as int)),
        decreases values@.len() - i,
    {
        proof {
            assert(values@.take(i + 1).drop_last() =~= values@.take(i as int));
        }
        let units = encode_utf16(values[i].name.as_str());
        if units.len() > max_name {
            max_name = units.len();
        }
        if values[i].bytes.len() > max_len {
            max_len = values[i].bytes.len();
        }
        i = i + 1;
    }
    assert(values@.take(values@.len() as int) =~= values@);
    Some(KeyInfo { values: values.len() as u32, max_value_name_len: max_name as u32, max_value_len: max_len as u32, subkeys: 0 })
}

/// The answer to `RegEnumValue`.
pub enum EnumReply {
    /// The index is past the last value.
    NoMoreItems,
    /// The name buffer cannot hold the name and its NUL; the name's length
    /// has been reported.
    NameTooSmall { name_len: u32 },
    /// The value at the index: the name length and name (with its NUL) to
    /// write where asked for, and the value query's answer.
    Value { name_len: Option<u32>, name: Option<Vec<u16>>, reply: RegReply },
}

/// The answer to `RegEnumValue` for `v`, with a name-length pointer holding
/// `name_capacity` (if given) and a name buffer if `has_name_buf`. A name
/// buffer is only used when a length is given too.
pub open spec fn enum_reply(v: RegValue, name_capacity: Option<u32>, has_name_buf: bool, req: ValueRequest, r: EnumReply) -> bool {
    let units = utf16_units(v.name@);
    let len = units.len() as u32;
    match name_capacity {
        Some(cap) => if has_name_buf && cap <= len {
            r == EnumReply::NameTooSmall { name_len: len }
        } else {
            r matches EnumReply::Value { name_len: nl, name: nm, reply }
                && nl == Some(len)
                && (if has_name_buf { nm matches Some(w) && w@ == units.push(0) } else { nm is None })
                && value_reply(v, req, reply)
        },
        None => r matches EnumReply::Value { name_len: nl, name: nm, reply } && nl is None && nm is None && value_reply(v, req, reply),
    }
}

/// Answers `RegEnumValue` for value `index` of `handle`: `None` when the
/// handle is not an emulated key.
pub fn enum_value(
    reg: &VirtualRegistry,
    handle: usize,
    index: u32,
    name_capacity: Option<u32>,
    has_name_buf: bool,
    req: &ValueRequest,
) -> (r: Option<EnumReply>)
    ensures
        match key_of_handle(*reg, handle) {
            Some(k) => r matches Some(reply) && {
                let vals = reg.keys@[k].values@;
                if (index as int) < vals.len() {
                    enum_reply(vals[index as int], name_capacity, has_name_buf, *req, reply)
                } else {
                    reply is NoMoreItems
                }
            },
            None => r is None,
        },
{
    let k = match key_index_of_handle(reg, handle) {
        Some(k) => k,
        None => {
            return None;
        },
    };
    let values = &reg.keys[k].values;
    if index as usize >= values.len() {
        return Some(EnumReply::NoMoreItems);
    }
    let v = &values[index as usize];
    let mut units = encode_utf16(v.name.as_str());
    let len = units.len() as u32;
    match name_capacity {
        Some(cap) => {
            if has_name_buf && cap <= len {
                return Some(EnumReply::NameTooSmall { name_len: len });
            }
            let name = if has_name_buf {
                units.push(0);
                Some(units)
            } else {
                None
            };
            Some(EnumReply::Value { name_len: Some(len), name, reply: write_value(v, req) })
        },
        None => Some(EnumReply::Value { name_len: None, name: None, reply: write_value(v, req) }),
    }
}

} // verus!
