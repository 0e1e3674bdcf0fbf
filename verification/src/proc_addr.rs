use vstd::prelude::*;
use vstd::string::StringSliceAdditionalSpecFns;

verus! {

/// An import to redirect by name: the function's name, the address of its
/// replacement and the address of the slot that receives the original
/// function (0 when none).
#[derive(Clone, Copy)]
pub struct HookSymbol {
    pub name: &'static str,
    pub patch: usize,
    pub original: usize,
}

/// An import to redirect by ordinal.
#[derive(Clone, Copy)]
pub struct OrdinalHookSymbol {
    pub ordinal: u16,
    pub patch: usize,
    pub original: usize,
}

/// The redirections registered for one DLL.
pub struct ProcAddrTable {
    pub dll_name: &'static str,
    pub symbols: Vec<HookSymbol>,
}

/// Everything `GetProcAddress` and `LoadLibrary*` consult: the detour tables
/// in registration order, the `GetProcAddress` overrides and the
/// `LoadLibraryA`/`LoadLibraryW` overrides, each in registration order.
pub struct ProcAddrRegistry<G, L> {
    pub tables: Vec<ProcAddrTable>,
    pub gpa_overrides: Vec<G>,
    pub load_overrides_a: Vec<L>,
    pub load_overrides_w: Vec<L>,
}

/// Whether every `GetProcAddress` override accepts every argument.
pub open spec fn gpa_callable<G: Fn(usize, &str) -> Option<usize>>(s: Seq<G>) -> bool {
    forall|i: int, m: usize, n: &str| 0 <= i < s.len() ==> #[trigger] call_requires(s[i], (m, n))
}

/// Whether every load override accepts every name.
pub open spec fn load_callable<L: Fn(&str) -> Option<usize>>(s: Seq<L>) -> bool {
    forall|i: int, n: &str| 0 <= i < s.len() ==> #[trigger] call_requires(s[i], (n,))
}

impl<G: Fn(usize, &str) -> Option<usize>, L: Fn(&str) -> Option<usize>> ProcAddrRegistry<G, L> {
    /// Every override accepts every argument.
    pub open spec fn callable(&self) -> bool {
        gpa_callable(self.gpa_overrides@) && load_callable(self.load_overrides_a@) && load_callable(self.load_overrides_w@)
    }
}

impl<G: Fn(usize, &str) -> Option<usize>, L: Fn(&str) -> Option<usize>> ProcAddrRegistry<G, L> {
    /// Nothing registered.
    pub fn new() -> (r: Self)
        ensures
            r.tables@.len() == 0,
            r.gpa_overrides@.len() == 0,
            r.load_overrides_a@.len() == 0,
            r.load_overrides_w@.len() == 0,
    {
        ProcAddrRegistry { tables: Vec::new(), gpa_overrides: Vec::new(), load_overrides_a: Vec::new(), load_overrides_w: Vec::new() }
    }
}

/// Registers the redirections of `dll_name`, so that later `GetProcAddress`
/// lookups and newly loaded modules see them.
pub fn push<G, L>(reg: &mut ProcAddrRegistry<G, L>, dll_name: &'static str, symbols: &[HookSymbol])
    ensures
        final(reg).gpa_overrides@ == old(reg).gpa_overrides@,
        final(reg).load_overrides_a@ == old(reg).load_overrides_a@,
        final(reg).load_overrides_w@ == old(reg).load_overrides_w@,
        final(reg).tables@.len() == old(reg).tables@.len() + 1,
        forall|i: int| 0 <= i < old(reg).tables@.len() ==> #[trigger] final(reg).tables@[i] == old(reg).tables@[i],
        final(reg).tables@.last().dll_name == dll_name,
        final(reg).tables@.last().symbols@ == symbols@,
{
    let entries = vstd::slice::slice_to_vec(symbols);
    reg.tables.push(ProcAddrTable { dll_name, symbols: entries });
}

/// Adds a `GetProcAddress` override after the existing ones.
pub fn push_get_proc_override<G: Fn(usize, &str) -> Option<usize>, L: Fn(&str) -> Option<usize>>(
    reg: &mut ProcAddrRegistry<G, L>,
    dll_name: &'static str,
    handler: G,
)
    requires
        old(reg).callable(),
        forall|m: usize, n: &str| call_requires(handler, (m, n)),
    ensures
        final(reg).callable(),
        final(reg).tables@ == old(reg).tables@,
        final(reg).gpa_overrides@ == old(reg).gpa_overrides@.push(handler),
        final(reg).load_overrides_a@ == old(reg).load_overrides_a@,
        final(reg).load_overrides_w@ == old(reg).load_overrides_w@,
{
    reg.gpa_overrides.push(handler);
    assert forall|i: int, m: usize, n: &str| 0 <= i < reg.gpa_overrides@.len() implies #[trigger] call_requires(reg.gpa_overrides@[i], (m, n)) by {
        if i < old(reg).gpa_overrides@.len() {
            assert(reg.gpa_overrides@[i] == old(reg).gpa_overrides@[i]);
        } else {
            assert(reg.gpa_overrides@[i] == handler);
        }
    }
}

/// Adds a `LoadLibraryA` override after the existing ones.
pub fn push_load_override_a<G: Fn(usize, &str) -> Option<usize>, L: Fn(&str) -> Option<usize>>(
    reg: &mut ProcAddrRegistry<G, L>,
    handler: L,
)
    requires
        old(reg).callable(),
        forall|n: &str| call_requires(handler, (n,)),
    ensures
        final(reg).callable(),
        final(reg).tables@ == old(reg).tables@,
        final(reg).gpa_overrides@ == old(reg).gpa_overrides@,
        final(reg).load_overrides_a@ == old(reg).load_overrides_a@.push(handler),
        final(reg).load_overrides_w@ == old(reg).load_overrides_w@,
{
    reg.load_overrides_a.push(handler);
    assert forall|i: int, n: &str| 0 <= i < reg.load_overrides_a@.len() implies #[trigger] call_requires(reg.load_overrides_a@[i], (n,)) by {
        if i < old(reg).load_overrides_a@.len() {
            assert(reg.load_overrides_a@[i] == old(reg).load_overrides_a@[i]);
        } else {
            assert(reg.load_overrides_a@[i] == handler);
        }
    }
}

/// Adds a `LoadLibraryW` override after the existing ones.
pub fn push_load_override_w<G: Fn(usize, &str) -> Option<usize>, L: Fn(&str) -> Option<usize>>(
    reg: &mut ProcAddrRegistry<G, L>,
    handler: L,
)
    requires
        old(reg).callable(),
        forall|n: &str| call_requires(handler, (n,)),
    ensures
        final(reg).callable(),
        final(reg).tables@ == old(reg).tables@,
        final(reg).gpa_overrides@ == old(reg).gpa_overrides@,
        final(reg).load_overrides_a@ == old(reg).load_overrides_a@,
        final(reg).load_overrides_w@ == old(reg).load_overrides_w@.push(handler),
{
    reg.load_overrides_w.push(handler);
    assert forall|i: int, n: &str| 0 <= i < reg.load_overrides_w@.len() implies #[trigger] call_requires(reg.load_overrides_w@[i], (n,)) by {
        if i < old(reg).load_overrides_w@.len() {
            assert(reg.load_overrides_w@[i] == old(reg).load_overrides_w@[i]);
        } else {
            assert(reg.load_overrides_w@[i] == handler);
        }
    }
}

/// Whether `GetProcAddress` is answered by the real function alone: a null
/// module, a missing name, a lookup by ordinal (a "name" below 0x10000), or a
/// call made while a lookup is already in progress on this thread.
pub open spec fn gpa_passes_through_spec(module: usize, name_ptr: usize, reentrant: bool) -> bool {
    module == 0 || name_ptr == 0 || name_ptr <= 0xFFFF || reentrant
}

/// Whether `GetProcAddress` is answered by the real function alone.
pub fn gpa_passes_through(module: usize, name_ptr: usize, reentrant: bool) -> (b: bool)
    ensures
        b == gpa_passes_through_spec(module, name_ptr, reentrant),
{
    module == 0 || name_ptr == 0 || name_ptr <= 0xFFFF || reentrant
}

/// The first redirection, in table and symbol order, of function `name` in
/// a table whose DLL is loaded at `module` (`modules[t]` is where table
/// `t`'s DLL is loaded, 0 when it is not): the table and symbol indices.
pub open spec fn find_detour(tables: Seq<ProcAddrTable>, modules: Seq<usize>, module: usize, name: Seq<u8>) -> Option<(int, int)> {
    if exists|t: int, k: int| detour_at(tables, modules, module, name, t, k) {
        let (t, k) = choose|t: int, k: int| first_detour_at(tables, modules, module, name, t, k);
        Some((t, k))
    } else {
        None
    }
}

/// Symbol `k` of table `t` redirects `name` for `module`.
pub open spec fn detour_at(tables: Seq<ProcAddrTable>, modules: Seq<usize>, module: usize, name: Seq<u8>, t: int, k: int) -> bool {
    &&& 0 <= t < tables.len()
    &&& t < modules.len()
    &&& modules[t] == module
    &&& 0 <= k < tables[t].symbols@.len()
    &&& tables[t].symbols@[k].name.spec_bytes() == name
}

/// Symbol `k` of table `t` is the first redirection of `name` for `module`:
/// no earlier table for `module` has one, and no earlier symbol of table `t`
/// is named `name`.
pub open spec fn first_detour_at(tables: Seq<ProcAddrTable>, modules: Seq<usize>, module: usize, name: Seq<u8>, t: int, k: int) -> bool {
    &&& detour_at(tables, modules, module, name, t, k)
    &&& forall|t2: int, k2: int| 0 <= t2 < t ==> !detour_at(tables, modules, module, name, t2, k2)
    &&& forall|k2: int| 0 <= k2 < k ==> !detour_at(tables, modules, module, name, t, k2)
}

pub(crate) fn bytes_equal(a: &[u8], b: &[u8]) -> (eq: bool)
    ensures
        eq == (a@ == b@),
{
    if a.len() != b.len() {
        return false;
    }
    let mut i: usize = 0;
    while i < a.len()
        invariant
            a@.len() == b@.len(),
            i <= a@.len(),
            forall|j: int| 0 <= j < i ==> a@[j] == b@[j],
        decreases a@.len() - i,
    {
        if a[i] != b[i] {
            return false;
        }
        i = i + 1;
    }
    assert(a@ =~= b@);
    true
}

/// Looks `name` up for `module` in the detour tables; `modules[t]` is where
/// table `t`'s DLL is loaded. Returns the matching symbol: the caller hands
/// out its patch and stores the real address in its original slot when that
/// slot is still empty.
pub fn lookup_detour<G, L>(reg: &ProcAddrRegistry<G, L>, modules: &[usize], module: usize, name: &[u8]) -> (r: Option<HookSymbol>)
    ensures
        match find_detour(reg.tables@, modules@, module, name@) {
            Some((t, k)) => r == Some(reg.tables@[t].symbols@[k]),
            None => r is None,
        },
{
    let n = reg.tables.len();
    let mut t: usize = 0;
    while t < n
        invariant
            n == reg.tables@.len(),
            t <= n,
            forall|t2: int, k2: int| 0 <= t2 < t ==> !detour_at(reg.tables@, modules@, module, name@, t2, k2),
        decreases n - t,
    {
        if t < modules.len() && modules[t] == module {
            let symbols = &reg.tables[t].symbols;
            let m = symbols.len();
            let mut k: usize = 0;
            while k < m
                invariant
                    m == symbols@.len(),
                    n == reg.tables@.len(),
                    t < n,
                    symbols@ == reg.tables@[t as int].symbols@,
                    t < modules@.len(),
                    modules@[t as int] == module,
                    k <= m,
                    forall|t2: int, k2: int| 0 <= t2 < t ==> !detour_at(reg.tables@, modules@, module, name@, t2, k2),
                    forall|k2: int| 0 <= k2 < k ==> !detour_at(reg.tables@, modules@, module, name@, t as int, k2),
                decreases m - k,
            {
                if bytes_equal(symbols[k].name.as_bytes(), name) {
                    proof {
                        assert(symbols@[k as int] == reg.tables@[t as int].symbols@[k as int]);
                        assert(0 <= t < reg.tables@.len());
                        assert(t < modules@.len());
                        assert(modules@[t as int] == module);
                        assert(0 <= k < reg.tables@[t as int].symbols@.len());
                        assert(reg.tables@[t as int].symbols@[k as int].name.spec_bytes() == name@);
                        assert(detour_at(reg.tables@, modules@, module, name@, t as int, k as int));
                        assert(first_detour_at(reg.tables@, modules@, module, name@, t as int, k as int));
                        let (t1, k1) = choose|t1: int, k1: int| first_detour_at(reg.tables@, modules@, module, name@, t1, k1);
                        if t1 < t {
                            assert(!detour_at(reg.tables@, modules@, module, name@, t1, k1));
                        } else if t < t1 {
                            assert(!detour_at(reg.tables@, modules@, module, name@, t as int, k as int));
                        } else if k1 < k {
                            assert(!detour_at(reg.tables@, modules@, module, name@, t as int, k1));
                        } else if k < k1 {
                            assert(!detour_at(reg.tables@, modules@, module, name@, t as int, k as int));
                        }
                    }
                    return Some(symbols[k]);
                }
                k = k + 1;
            }
        }
        t = t + 1;
    }
    None
}

/// The address to hand out for `GetProcAddress(module, name)` from the
/// overrides: the answer of the first override that gives one, every earlier
/// one having declined; `None` when all decline.
pub fn lookup_override<G: Fn(usize, &str) -> Option<usize>, L: Fn(&str) -> Option<usize>>(
    reg: &ProcAddrRegistry<G, L>,
    module: usize,
    name: &str,
) -> (r: Option<usize>)
    requires
        reg.callable(),
    ensures
        r is None ==> forall|i: int| 0 <= i < reg.gpa_overrides@.len() ==> call_ensures(#[trigger] reg.gpa_overrides@[i], (module, name), None::<usize>),
        r matches Some(a) ==> exists|i: int|
            0 <= i < reg.gpa_overrides@.len() && call_ensures(#[trigger] reg.gpa_overrides@[i], (module, name), Some(a)) && forall|j: int|
                0 <= j < i ==> call_ensures(#[trigger] reg.gpa_overrides@[j], (module, name), None::<usize>),
{
    let handlers = &reg.gpa_overrides;
    let n = handlers.len();
    let mut i: usize = 0;
    while i < n
        invariant
            handlers@ == reg.gpa_overrides@,
            reg.callable(),
            n == handlers@.len(),
            i <= n,
            forall|j: int| 0 <= j < i ==> call_ensures(#[trigger] handlers@[j], (module, name), None::<usize>),
        decreases n - i,
    {
        let handler = &handlers[i];
        assert(call_requires(handlers@[i as int], (module, name)));
        let r = handler(module, name);
        if r.is_some() {
            return r;
        }
        i = i + 1;
    }
    None
}

/// The module to hand out for a load of `name` from `handlers`: the answer
/// of the first one that gives one, every earlier one having declined.
fn first_load_override<L: Fn(&str) -> Option<usize>>(handlers: &Vec<L>, name: &str) -> (r: Option<usize>)
    requires
        load_callable(handlers@),
    ensures
        r is None ==> forall|i: int| 0 <= i < handlers@.len() ==> call_ensures(#[trigger] handlers@[i], (name,), None::<usize>),
        r matches Some(a) ==> exists|i: int|
            0 <= i < handlers@.len() && call_ensures(#[trigger] handlers@[i], (name,), Some(a)) && forall|j: int|
                0 <= j < i ==> call_ensures(#[trigger] handlers@[j], (name,), None::<usize>),
{
    let n = handlers.len();
    let mut i: usize = 0;
    while i < n
        invariant
            load_callable(handlers@),
            n == handlers@.len(),
            i <= n,
            forall|j: int| 0 <= j < i ==> call_ensures(#[trigger] handlers@[j], (name,), None::<usize>),
        decreases n - i,
    {
        let handler = &handlers[i];
        assert(call_requires(handlers@[i as int], (name,)));
        let r = handler(name);
        if r.is_some() {
            return r;
        }
        i = i + 1;
    }
    None
}

/// The module to hand out for `LoadLibraryA(name)` from the overrides.
pub fn lookup_load_override_a<G: Fn(usize, &str) -> Option<usize>, L: Fn(&str) -> Option<usize>>(
    reg: &ProcAddrRegistry<G, L>,
    name: &str,
) -> (r: Option<usize>)
    requires
        reg.callable(),
    ensures
        r is None ==> forall|i: int| 0 <= i < reg.load_overrides_a@.len() ==> call_ensures(#[trigger] reg.load_overrides_a@[i], (name,), None::<usize>),
        r matches Some(a) ==> exists|i: int|
            0 <= i < reg.load_overrides_a@.len() && call_ensures(#[trigger] reg.load_overrides_a@[i], (name,), Some(a)) && forall|j: int|
                0 <= j < i ==> call_ensures(#[trigger] reg.load_overrides_a@[j], (name,), None::<usize>),
{
    first_load_override(&reg.load_overrides_a, name)
}

/// The module to hand out for `LoadLibraryW(name)` from the overrides.
pub fn lookup_load_override_w<G: Fn(usize, &str) -> Option<usize>, L: Fn(&str) -> Option<usize>>(
    reg: &ProcAddrRegistry<G, L>,
    name: &str,
) -> (r: Option<usize>)
    requires
        reg.callable(),
    ensures
        r is None ==> forall|i: int| 0 <= i < reg.load_overrides_w@.len() ==> call_ensures(#[trigger] reg.load_overrides_w@[i], (name,), None::<usize>),
        r matches Some(a) ==> exists|i: int|
            0 <= i < reg.load_overrides_w@.len() && call_ensures(#[trigger] reg.load_overrides_w@[i], (name,), Some(a)) && forall|j: int|
                0 <= j < i ==> call_ensures(#[trigger] reg.load_overrides_w@[j], (name,), None::<usize>),
{
    first_load_override(&reg.load_overrides_w, name)
}

/// The value a function's original slot takes when the real address `found`
/// is found: it is filled only when a slot exists, it is still empty and the
/// real address is known.
pub open spec fn original_slot_fill(slot: usize, slot_value: usize, found: usize) -> Option<usize> {
    if slot != 0 && found != 0 && slot_value == 0 {
        Some(found)
    } else {
        None
    }
}

/// Whether the original slot `slot`, now holding `slot_value`, is to be set
/// to the real address `found`.
pub fn fill_original_slot(slot: usize, slot_value: usize, found: usize) -> (r: Option<usize>)
    ensures
        r == original_slot_fill(slot, slot_value, found),
{
    if slot != 0 && found != 0 && slot_value == 0 {
        Some(found)
    } else {
        None
    }
}

} // verus!
