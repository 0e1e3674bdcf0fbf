use vstd::prelude::*;
use vstd::string::StringSliceAdditionalSpecFns;

verus! {

/// The start-up stage a module belongs to, in the order the stages run.
#[derive(Clone, Copy, Debug, PartialEq, Eq, Structural)]
pub enum InitStage {
    Graphics,
    PlatformCore,
    Platform,
    IoHook,
    Device,
    Late,
}

/// The position of a stage in the start-up order.
pub open spec fn stage_rank(s: InitStage) -> int {
    match s {
        InitStage::Graphics => 0,
        InitStage::PlatformCore => 1,
        InitStage::Platform => 2,
        InitStage::IoHook => 3,
        InitStage::Device => 4,
        InitStage::Late => 5,
    }
}

/// A built-in module: its path, its stage and its order within the stage.
#[derive(Clone, Copy)]
pub struct ModuleDescriptor {
    pub name: &'static str,
    pub stage: InitStage,
    pub order: u16,
}

/// Whether `a` starts strictly before `b`: an earlier stage, or the same
/// stage and a lower order.
pub open spec fn starts_before(a: ModuleDescriptor, b: ModuleDescriptor) -> bool {
    stage_rank(a.stage) < stage_rank(b.stage) || (a.stage == b.stage && a.order < b.order)
}

/// Whether the modules are in start-up order, no two at the same stage and
/// order.
pub open spec fn in_start_order(m: Seq<ModuleDescriptor>) -> bool {
    forall|i: int, j: int| 0 <= i < j < m.len() ==> starts_before(#[trigger] m[i], #[trigger] m[j])
}

fn module(name: &'static str, stage: InitStage, order: u16) -> (m: ModuleDescriptor)
    ensures
        m.name == name && m.stage == stage && m.order == order,
{
    ModuleDescriptor { name, stage, order }
}

/// The built-in modules: path, stage and order within the stage, in
/// start-up order.
pub open spec fn builtin_modules() -> Seq<ModuleDescriptor> {
    seq![
        ModuleDescriptor { name: "applechu::gfx::windowed::init", stage: InitStage::Graphics, order: 10 },
        ModuleDescriptor { name: "applechu::gfx::monitor::init", stage: InitStage::Graphics, order: 20 },
        ModuleDescriptor { name: "applechu::gfx::d3d9::init", stage: InitStage::Graphics, order: 30 },
        ModuleDescriptor { name: "applechu::iohook::proc_addr::init", stage: InitStage::PlatformCore, order: 10 },
        ModuleDescriptor { name: "applechu::iohook::init_core", stage: InitStage::PlatformCore, order: 25 },
        ModuleDescriptor { name: "applechu::iohook::serial::init", stage: InitStage::PlatformCore, order: 30 },
        ModuleDescriptor { name: "applechu::platform::reg_hook::init", stage: InitStage::Platform, order: 10 },
        ModuleDescriptor { name: "applechu::platform::vfs::init", stage: InitStage::Platform, order: 20 },
        ModuleDescriptor { name: "applechu::platform::amvideo::init", stage: InitStage::Platform, order: 30 },
        ModuleDescriptor { name: "applechu::platform::clock::init", stage: InitStage::Platform, order: 40 },
        ModuleDescriptor { name: "applechu::platform::misc::init", stage: InitStage::Platform, order: 50 },
        ModuleDescriptor { name: "applechu::platform::pcbid::init", stage: InitStage::Platform, order: 60 },
        ModuleDescriptor { name: "applechu::platform::dvd::init", stage: InitStage::Platform, order: 70 },
        ModuleDescriptor { name: "applechu::platform::system::init", stage: InitStage::Platform, order: 80 },
        ModuleDescriptor { name: "applechu::iohook::init_all", stage: InitStage::IoHook, order: 10 },
        ModuleDescriptor { name: "applechu::unlocker::init", stage: InitStage::IoHook, order: 20 },
        ModuleDescriptor { name: "applechu::chuniio::init", stage: InitStage::Device, order: 10 },
        ModuleDescriptor { name: "applechu::io4::init", stage: InitStage::Device, order: 20 },
        ModuleDescriptor { name: "applechu::slider::init", stage: InitStage::Device, order: 30 },
        ModuleDescriptor { name: "applechu::vfd::init", stage: InitStage::Device, order: 40 },
        ModuleDescriptor { name: "applechu::led::init", stage: InitStage::Device, order: 50 },
        ModuleDescriptor { name: "applechu::aime::init", stage: InitStage::Device, order: 60 },
        ModuleDescriptor { name: "applechu::national_match::init", stage: InitStage::Late, order: 10 },
        ModuleDescriptor { name: "applechu::autoplay::init_all", stage: InitStage::Late, order: 20 },
        ModuleDescriptor { name: "applechu::ux::dpi_aware::init", stage: InitStage::Late, order: 30 },
        ModuleDescriptor { name: "applechu::d3d9::init_all", stage: InitStage::Late, order: 40 },
    ]
}

/// The built-in modules in start-up order: by stage, then by order (no two
/// share both, so names never decide).
pub fn registered_modules() -> (modules: Vec<ModuleDescriptor>)
    ensures
        modules@ == builtin_modules(),
        in_start_order(modules@),
        modules@.len() == 26,
{
    let mut m: Vec<ModuleDescriptor> = Vec::new();
    m.push(module("applechu::gfx::windowed::init", InitStage::Graphics, 10));
    m.push(module("applechu::gfx::monitor::init", InitStage::Graphics, 20));
    m.push(module("applechu::gfx::d3d9::init", InitStage::Graphics, 30));
    m.push(module("applechu::iohook::proc_addr::init", InitStage::PlatformCore, 10));
    m.push(module("applechu::iohook::init_core", InitStage::PlatformCore, 25));
    m.push(module("applechu::iohook::serial::init", InitStage::PlatformCore, 30));
    m.push(module("applechu::platform::reg_hook::init", InitStage::Platform, 10));
    m.push(module("applechu::platform::vfs::init", InitStage::Platform, 20));
    m.push(module("applechu::platform::amvideo::init", InitStage::Platform, 30));
    m.push(module("applechu::platform::clock::init", InitStage::Platform, 40));
    m.push(module("applechu::platform::misc::init", InitStage::Platform, 50));
    m.push(module("applechu::platform::pcbid::init", InitStage::Platform, 60));
    m.push(module("applechu::platform::dvd::init", InitStage::Platform, 70));
    m.push(module("applechu::platform::system::init", InitStage::Platform, 80));
    m.push(module("applechu::iohook::init_all", InitStage::IoHook, 10));
    m.push(module("applechu::unlocker::init", InitStage::IoHook, 20));
    m.push(module("applechu::chuniio::init", InitStage::Device, 10));
    m.push(module("applechu::io4::init", InitStage::Device, 20));
    m.push(module("applechu::slider::init", InitStage::Device, 30));
    m.push(module("applechu::vfd::init", InitStage::Device, 40));
    m.push(module("applechu::led::init", InitStage::Device, 50));
    m.push(module("applechu::aime::init", InitStage::Device, 60));
    m.push(module("applechu::national_match::init", InitStage::Late, 10));
    m.push(module("applechu::autoplay::init_all", InitStage::Late, 20));
    m.push(module("applechu::ux::dpi_aware::init", InitStage::Late, 30));
    m.push(module("applechu::d3d9::init_all", InitStage::Late, 40));
    proof {
        assert forall|i: int, j: int| 0 <= i < j < m@.len() implies starts_before(#[trigger] m@[i], #[trigger] m@[j]) by {
            assert forall|k: int| 0 <= k < m@.len() - 1 implies starts_before(#[trigger] m@[k], m@[k + 1]) by {}
            lemma_chain(m@, i, j);
        }
        assert(m@ =~= builtin_modules());
    }
    m
}

proof fn lemma_chain(m: Seq<ModuleDescriptor>, i: int, j: int)
    requires
        0 <= i < j < m.len(),
        forall|k: int| 0 <= k < m.len() - 1 ==> starts_before(#[trigger] m[k], m[k + 1]),
    ensures
        starts_before(m[i], m[j]),
    decreases j - i,
{
    if j > i + 1 {
        lemma_chain(m, i, j - 1);
        assert(starts_before(m[j - 1], m[j]));
    }
}

/// Whether modules of a stage run under the diagnostic switches: graphics and
/// late modules always; the core platform hooks with the platform; platform
/// modules and device I/O also need their own switch; device emulation has
/// its own.
pub open spec fn stage_enabled_spec(
    stage: InitStage,
    platform: bool,
    platform_modules: bool,
    iohook: bool,
    devices: bool,
) -> bool {
    match stage {
        InitStage::Graphics | InitStage::Late => true,
        InitStage::PlatformCore => platform,
        InitStage::Platform => platform && platform_modules,
        InitStage::IoHook => platform && iohook,
        InitStage::Device => devices,
    }
}

/// Whether modules of a stage run (see `stage_enabled_spec`).
pub fn stage_enabled(stage: InitStage, platform: bool, platform_modules: bool, iohook: bool, devices: bool) -> (b: bool)
    ensures
        b == stage_enabled_spec(stage, platform, platform_modules, iohook, devices),
{
    match stage {
        InitStage::Graphics | InitStage::Late => true,
        InitStage::PlatformCore => platform,
        InitStage::Platform => platform && platform_modules,
        InitStage::IoHook => platform && iohook,
        InitStage::Device => devices,
    }
}

/// The diagnostic switches: everything is on unless a section switches it off.
pub struct HookModeConfig {
    pub platform: bool,
    pub devices: bool,
    pub platform_modules: bool,
    pub iohook: bool,
}

/// The switches in force: those of the section, or all on without one.
pub fn hook_mode_switches(c: Option<&HookModeConfig>) -> (s: (bool, bool, bool, bool))
    ensures
        s == (match c {
            Some(h) => (h.platform, h.platform_modules, h.iohook, h.devices),
            None => (true, true, true, true),
        }),
{
    match c {
        Some(h) => (h.platform, h.platform_modules, h.iohook, h.devices),
        None => (true, true, true, true),
    }
}

/// The modules to start, in start-up order: those whose stage runs under the
/// switches and whose own setting (`enabled`, one entry per registered
/// module) is on.
pub open spec fn init_plan_ok(
    modules: Seq<ModuleDescriptor>,
    enabled: Seq<bool>,
    switches: (bool, bool, bool, bool),
    plan: Seq<usize>,
) -> bool {
    &&& forall|k: int| 0 <= k < plan.len() ==> (#[trigger] plan[k]) < modules.len()
    &&& forall|k: int, l: int| 0 <= k < l < plan.len() ==> #[trigger] plan[k] < #[trigger] plan[l]
    &&& forall|i: int|
        0 <= i < modules.len() ==> (plan.contains(i as usize) <==> (stage_enabled_spec(
            modules[i].stage,
            switches.0,
            switches.1,
            switches.2,
            switches.3,
        ) && enabled[i]))
}

/// Chooses the modules to start among `modules` (see `init_plan_ok`).
pub fn init_all(modules: &[ModuleDescriptor], enabled: &[bool], switches: (bool, bool, bool, bool)) -> (plan: Vec<usize>)
    requires
        enabled@.len() == modules@.len(),
    ensures
        init_plan_ok(modules@, enabled@, switches, plan@),
{
    let mut plan: Vec<usize> = Vec::new();
    let mut i: usize = 0;
    while i < modules.len()
        invariant
            i <= modules@.len(),
            enabled@.len() == modules@.len(),
            forall|k: int| 0 <= k < plan@.len() ==> (#[trigger] plan@[k]) < i,
            forall|k: int, l: int| 0 <= k < l < plan@.len() ==> #[trigger] plan@[k] < #[trigger] plan@[l],
            forall|j: int|
                0 <= j < i ==> (plan@.contains(j as usize) <==> (stage_enabled_spec(
                    modules@[j].stage,
                    switches.0,
                    switches.1,
                    switches.2,
                    switches.3,
                ) && enabled@[j])),
        decreases modules@.len() - i,
    {
        let m = modules[i];
        let take = stage_enabled(m.stage, switches.0, switches.1, switches.2, switches.3) && enabled[i];
        let ghost before = plan@;
        if take {
            plan.push(i);
            assert forall|j: int| 0 <= j < modules@.len() implies #[trigger] plan@.contains(j as usize) == (before.contains(j as usize) || j == i) by {
                if j == i {
                    assert(plan@[before.len() as int] == i);
                }
                if plan@.contains(j as usize) && j != i {
                    let k = choose|k: int| 0 <= k < plan@.len() && plan@[k] == j as usize;
                    assert(k < before.len());
                    assert(before[k] == j as usize);
                }
                if before.contains(j as usize) {
                    let k = choose|k: int| 0 <= k < before.len() && before[k] == j as usize;
                    assert(plan@[k] == j as usize);
                }
            }
        }
        i = i + 1;
    }
    plan
}

/// Whether `s` ends with `suffix`.
pub open spec fn ends_with_spec(s: Seq<u8>, suffix: Seq<u8>) -> bool {
    suffix.len() <= s.len() && s.subrange(s.len() - suffix.len(), s.len() as int) == suffix
}

/// Whether `s` ends with `suffix` (bytewise, as `str::ends_with` on strings).
pub fn bytes_ends_with(s: &[u8], suffix: &[u8]) -> (b: bool)
    ensures
        b == ends_with_spec(s@, suffix@),
{
    if suffix.len() > s.len() {
        return false;
    }
    let slen = s.len();
    let start = slen - suffix.len();
    let mut i: usize = 0;
    while i < suffix.len()
        invariant
            slen == s@.len(),
            start + suffix@.len() == s@.len(),
            i <= suffix@.len(),
            forall|k: int| 0 <= k < i ==> s@[start + k] == suffix@[k],
        decreases suffix@.len() - i,
    {
        if s[start + i] != suffix[i] {
            assert(s@.subrange(start as int, s@.len() as int)[i as int] != suffix@[i as int]);
            return false;
        }
        i = i + 1;
    }
    assert(s@.subrange(start as int, s@.len() as int) =~= suffix@);
    true
}

/// The first module whose path ends with `suffix`.
#[verifier::opaque]
pub open spec fn find_suffix_spec(modules: Seq<ModuleDescriptor>, suffix: Seq<u8>) -> Option<int> {
    if exists|i: int| 0 <= i < modules.len() && ends_with_spec(modules[i].name.spec_bytes(), suffix) {
        Some(
            choose|i: int|
                0 <= i < modules.len() && ends_with_spec(modules[i].name.spec_bytes(), suffix) && forall|j: int|
                    0 <= j < i ==> !ends_with_spec(#[trigger] modules[j].name.spec_bytes(), suffix),
        )
    } else {
        None
    }
}

/// The first module whose path ends with `suffix` (see `find_suffix_spec`).
pub fn find_by_suffix(modules: &[ModuleDescriptor], suffix: &str) -> (r: Option<usize>)
    ensures
        r matches Some(i) ==> i < modules@.len() && find_suffix_spec(modules@, suffix.spec_bytes()) == Some(i as int),
        r is None ==> find_suffix_spec(modules@, suffix.spec_bytes()) is None,
{
    reveal(find_suffix_spec);
    let mut i: usize = 0;
    while i < modules.len()
        invariant
            i <= modules@.len(),
            forall|j: int| 0 <= j < i ==> !ends_with_spec(#[trigger] modules@[j].name.spec_bytes(), suffix.spec_bytes()),
        decreases modules@.len() - i,
    {
        if bytes_ends_with(modules[i].name.as_bytes(), suffix.as_bytes()) {
            proof {
                reveal(find_suffix_spec);
                let m = modules@;
                let sb = suffix.spec_bytes();
                let c = choose|k: int|
                    0 <= k < m.len() && ends_with_spec(m[k].name.spec_bytes(), sb) && forall|j: int|
                        0 <= j < k ==> !ends_with_spec(#[trigger] m[j].name.spec_bytes(), sb);
                assert(0 <= i < m.len() && ends_with_spec(m[i as int].name.spec_bytes(), sb));
                assert(c == i) by {
                    if c < i {
                        assert(!ends_with_spec(m[c].name.spec_bytes(), sb));
                    }
                    if c > i {
                        assert(!ends_with_spec(m[i as int].name.spec_bytes(), sb));
                    }
                }
            }
            return Some(i);
        }
        i = i + 1;
    }
    None
}

/// The modules an AM Daemon start-up runs, in the order it names them by
/// path suffix: each suffix picks the first module whose path ends with it,
/// which runs when its own setting is on. `Err(k)` when no module matches
/// the suffix at position `k` of `order` (the process then exits).
pub open spec fn ordered_plan_spec(
    modules: Seq<ModuleDescriptor>,
    enabled: Seq<bool>,
    order: Seq<Seq<u8>>,
) -> Result<Seq<usize>, int>
    decreases order.len(),
{
    if order.len() == 0 {
        Ok(Seq::empty())
    } else {
        match ordered_plan_spec(modules, enabled, order.drop_last()) {
            Err(k) => Err(k),
            Ok(plan) => match find_suffix_spec(modules, order.last()) {
                None => Err(order.len() - 1),
                Some(i) => if enabled[i] {
                    Ok(plan.push(i as usize))
                } else {
                    Ok(plan)
                },
            },
        }
    }
}

/// The suffixes of an AM Daemon order as bytes.
pub open spec fn suffix_bytes(order: Seq<&str>) -> Seq<Seq<u8>> {
    order.map_values(|s: &str| s.spec_bytes())
}

/// An error in a prefix of the order is the error of the whole order.
proof fn lemma_ordered_plan_err_stays(modules: Seq<ModuleDescriptor>, enabled: Seq<bool>, order: Seq<Seq<u8>>, n: int)
    requires
        0 <= n <= order.len(),
        ordered_plan_spec(modules, enabled, order.take(n)) is Err,
    ensures
        ordered_plan_spec(modules, enabled, order) == ordered_plan_spec(modules, enabled, order.take(n)),
    decreases order.len() - n,
{
    if n < order.len() {
        assert(order.take(n + 1).drop_last() =~= order.take(n));
        lemma_ordered_plan_err_stays(modules, enabled, order, n + 1);
    } else {
        assert(order.take(n) =~= order);
    }
}

/// Plans an AM Daemon start-up (see `ordered_plan_spec`).
pub fn init_ordered(modules: &[ModuleDescriptor], enabled: &[bool], order: &[&str]) -> (r: Result<Vec<usize>, usize>)
    requires
        enabled@.len() == modules@.len(),
    ensures
        match r {
            Ok(plan) => ordered_plan_spec(modules@, enabled@, suffix_bytes(order@)) == Ok::<Seq<usize>, int>(plan@),
            Err(k) => ordered_plan_spec(modules@, enabled@, suffix_bytes(order@)) == Err::<Seq<usize>, int>(k as int),
        },
{
    let mut plan: Vec<usize> = Vec::new();
    let mut k: usize = 0;
    while k < order.len()
        invariant
            k <= order@.len(),
            enabled@.len() == modules@.len(),
            ordered_plan_spec(modules@, enabled@, suffix_bytes(order@).take(k as int)) == Ok::<Seq<usize>, int>(plan@),
        decreases order@.len() - k,
    {
        let ghost prev = suffix_bytes(order@).take(k as int);
        let ghost cur = suffix_bytes(order@).take(k + 1);
        proof {
            assert(cur.drop_last() =~= prev);
            assert(cur.last() == order@[k as int].spec_bytes());
            assert(cur.len() == k + 1);
        }
        match find_by_suffix(modules, order[k]) {
            None => {
                proof {
                    assert(ordered_plan_spec(modules@, enabled@, cur) == Err::<Seq<usize>, int>(k as int));
                    lemma_ordered_plan_err_stays(modules@, enabled@, suffix_bytes(order@), k as int + 1);
                }
                return Err(k);
            },
            Some(i) => {
                if enabled[i] {
                    plan.push(i);
                }
                assert(ordered_plan_spec(modules@, enabled@, cur) == Ok::<Seq<usize>, int>(plan@));
            },
        }
        k = k + 1;
    }
    assert(suffix_bytes(order@).take(order@.len() as int) =~= suffix_bytes(order@));
    Ok(plan)
}

/// What becomes of a module after its start-up function returned.
#[derive(Clone, Copy, PartialEq, Eq, Debug, Structural)]
pub enum InitOutcome {
    /// It started and has a shutdown function: remember it for shutdown.
    Remember,
    /// It started without a shutdown function, or failed where failure is
    /// logged only.
    Done,
    /// It failed where failure is fatal: the process exits with code 1.
    Exit,
}

/// The outcome of starting a module.
pub fn init_outcome(ok: bool, fatal: bool, has_shutdown: bool) -> (o: InitOutcome)
    ensures
        o == (if !ok {
            if fatal { InitOutcome::Exit } else { InitOutcome::Done }
        } else if has_shutdown {
            InitOutcome::Remember
        } else {
            InitOutcome::Done
        }),
{
    if !ok {
        if fatal { InitOutcome::Exit } else { InitOutcome::Done }
    } else if has_shutdown {
        InitOutcome::Remember
    } else {
        InitOutcome::Done
    }
}

/// The modules that started and have a shutdown function, in start order.
pub struct StartedModules {
    started: Vec<usize>,
}

impl View for StartedModules {
    type V = Seq<usize>;

    closed spec fn view(&self) -> Seq<usize> {
        self.started@
    }
}

impl StartedModules {
    /// No module started yet.
    pub fn new() -> (s: Self)
        ensures
            s@ == Seq::<usize>::empty(),
    {
        StartedModules { started: Vec::new() }
    }

    /// Remembers a module that started.
    pub fn remember(&mut self, module: usize)
        ensures
            final(self)@ == old(self)@.push(module),
    {
        self.started.push(module);
    }

    /// Takes the modules to shut down, last started first, and forgets them.
    pub fn take_shutdown_order(&mut self) -> (order: Vec<usize>)
        ensures
            order@ == old(self)@.reverse(),
            final(self)@ == Seq::<usize>::empty(),
    {
        let mut order: Vec<usize> = Vec::new();
        let n = self.started.len();
        let mut i: usize = n;
        while i > 0
            invariant
                i <= n,
                n == self.started@.len(),
                self.started@ == old(self)@,
                order@ == old(self)@.subrange(i as int, n as int).reverse(),
            decreases i,
        {
            i = i - 1;
            order.push(self.started[i]);
            proof {
                assert(old(self)@.subrange(i as int, n as int).reverse() =~= old(self)@.subrange(i + 1, n as int).reverse().push(
                    old(self)@[i as int],
                ));
            }
        }
        self.started = Vec::new();
        assert(old(self)@.subrange(0, n as int) =~= old(self)@);
        order
    }
}

/// A notice logged after start-up for a switch that turned modules off.
#[derive(Clone, Copy, PartialEq, Eq, Debug, Structural)]
pub enum DisabledNotice {
    Platform,
    PlatformModules,
    DeviceIo,
    Hardware,
}

/// The notices for the switches that are off: with the platform off, only
/// that (its sub-switches do not matter); else one for platform modules and
/// one for device I/O when off; and one for hardware emulation when off.
pub fn disabled_notices(switches: (bool, bool, bool, bool)) -> (n: Vec<DisabledNotice>)
    ensures
        n@ == (if !switches.0 {
            seq![DisabledNotice::Platform]
        } else {
            (if !switches.1 { seq![DisabledNotice::PlatformModules] } else { Seq::empty() }) + (if !switches.2 {
                seq![DisabledNotice::DeviceIo]
            } else {
                Seq::empty()
            })
        }) + (if !switches.3 { seq![DisabledNotice::Hardware] } else { Seq::empty() }),
{
    let mut n: Vec<DisabledNotice> = Vec::new();
    if !switches.0 {
        n.push(DisabledNotice::Platform);
    } else {
        if !switches.1 {
            n.push(DisabledNotice::PlatformModules);
        }
        if !switches.2 {
            n.push(DisabledNotice::DeviceIo);
        }
    }
    if !switches.3 {
        n.push(DisabledNotice::Hardware);
    }
    assert(n@ =~= (if !switches.0 {
        seq![DisabledNotice::Platform]
    } else {
        (if !switches.1 { seq![DisabledNotice::PlatformModules] } else { Seq::empty() }) + (if !switches.2 {
            seq![DisabledNotice::DeviceIo]
        } else {
            Seq::empty()
        })
    }) + (if !switches.3 { seq![DisabledNotice::Hardware] } else { Seq::empty() }));
    n
}

/// What a module's start-up function may return, turned into success or an
/// error message.
pub trait ModuleInitResult: Sized {
    /// The outcome a value stands for: success, or the error message.
    spec fn module_result(self) -> Result<(), Seq<char>>;

    fn into_module_result(self) -> (r: Result<(), String>)
        ensures
            result_message(r) == self.module_result(),
    ;
}

/// A start-up outcome with its error message as characters.
pub open spec fn result_message(r: Result<(), String>) -> Result<(), Seq<char>> {
    match r {
        Ok(()) => Ok(()),
        Err(e) => Err(e@),
    }
}

impl ModuleInitResult for () {
    /// A function without a result always succeeds.
    open spec fn module_result(self) -> Result<(), Seq<char>> {
        Ok(())
    }

    fn into_module_result(self) -> (r: Result<(), String>) {
        Ok(())
    }
}

impl ModuleInitResult for Result<(), String> {
    /// A result keeps its outcome and its message.
    open spec fn module_result(self) -> Result<(), Seq<char>> {
        result_message(self)
    }

    fn into_module_result(self) -> (r: Result<(), String>) {
        self
    }
}

impl<'a> ModuleInitResult for Result<(), &'a str> {
    /// A result keeps its outcome; a borrowed message becomes an owned one.
    open spec fn module_result(self) -> Result<(), Seq<char>> {
        match self {
            Ok(()) => Ok(()),
            Err(e) => Err(e@),
        }
    }

    fn into_module_result(self) -> (r: Result<(), String>) {
        match self {
            Ok(()) => Ok(()),
            Err(e) => Err(String::from_str(e)),
        }
    }
}

/// The outcome of a module's start-up function as success or an error message.
pub fn normalize_init_result<T: ModuleInitResult>(value: T) -> (r: Result<(), String>)
    ensures
        result_message(r) == value.module_result(),
{
    value.into_module_result()
}

} // verus!
