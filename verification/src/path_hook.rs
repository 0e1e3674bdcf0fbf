use vstd::prelude::*;

verus! {

/// The path rewriters that file APIs consult, in the order they were added.
/// Each takes a path and returns the path to use instead, or `None` to leave
/// it to the next one.
pub struct PathHooks<F: Fn(&str) -> Option<String>> {
    callbacks: Vec<F>,
}

impl<F: Fn(&str) -> Option<String>> View for PathHooks<F> {
    type V = Seq<F>;

    closed spec fn view(&self) -> Seq<F> {
        self.callbacks@
    }
}

impl<F: Fn(&str) -> Option<String>> PathHooks<F> {
    /// Every rewriter accepts every path.
    pub closed spec fn wf(&self) -> bool {
        forall|i: int, p: &str| 0 <= i < self.callbacks@.len() ==> #[trigger] call_requires(self.callbacks@[i], (p,))
    }

    /// No rewriters yet.
    pub fn new() -> (h: Self)
        ensures
            h.wf(),
            h@ == Seq::<F>::empty(),
    {
        PathHooks { callbacks: Vec::new() }
    }

    /// The path to use in place of `path`: the answer of the first rewriter
    /// that gives one, every rewriter before it having declined; `None` when
    /// all decline.
    pub fn transform(&self, path: &str) -> (r: Option<String>)
        requires
            self.wf(),
        ensures
            r is None ==> forall|i: int| 0 <= i < self@.len() ==> call_ensures(#[trigger] self@[i], (path,), None::<String>),
            r matches Some(s) ==> exists|i: int|
                0 <= i < self@.len() && call_ensures(#[trigger] self@[i], (path,), Some(s)) && forall|j: int|
                    0 <= j < i ==> call_ensures(#[trigger] self@[j], (path,), None::<String>),
    {
        let n = self.callbacks.len();
        let mut i: usize = 0;
        while i < n
            invariant
                self.wf(),
                n == self@.len(),
                i <= n,
                forall|j: int| 0 <= j < i ==> call_ensures(#[trigger] self@[j], (path,), None::<String>),
            decreases n - i,
        {
            let callback = &self.callbacks[i];
            assert(call_requires(self.callbacks@[i as int], (path,)));
            let r = callback(path);
            match r {
                Some(s) => {
                    return Some(s);
                },
                None => {},
            }
            i = i + 1;
        }
        None
    }
}

/// Adds a path rewriter after the existing ones.
pub fn push<F: Fn(&str) -> Option<String>>(hooks: &mut PathHooks<F>, callback: F)
    requires
        old(hooks).wf(),
        forall|p: &str| call_requires(callback, (p,)),
    ensures
        final(hooks).wf(),
        final(hooks)@ == old(hooks)@.push(callback),
{
    hooks.callbacks.push(callback);
    assert forall|i: int, p: &str| 0 <= i < hooks.callbacks@.len() implies #[trigger] call_requires(hooks.callbacks@[i], (p,)) by {
        if i < old(hooks).callbacks@.len() {
            assert(hooks.callbacks@[i] == old(hooks).callbacks@[i]);
        }
    }
}

/// The kernel32 file APIs whose path arguments are rewritten, in hooking
/// order.
pub open spec fn kernel_hook_names_spec() -> Seq<Seq<char>> {
    seq![
        "CreateFileA"@,
        "CreateFileW"@,
        "GetFileAttributesA"@,
        "GetFileAttributesW"@,
        "GetFileAttributesExA"@,
        "GetFileAttributesExW"@,
        "FindFirstFileA"@,
        "FindFirstFileW"@,
        "FindFirstFileExA"@,
        "FindFirstFileExW"@,
        "CreateDirectoryA"@,
        "CreateDirectoryW"@,
        "CreateDirectoryExA"@,
        "CreateDirectoryExW"@,
        "RemoveDirectoryA"@,
        "RemoveDirectoryW"@,
        "MoveFileA"@,
        "MoveFileW"@,
        "CopyFileA"@,
        "CopyFileW"@,
        "MoveFileExA"@,
        "MoveFileExW"@,
        "CopyFileExA"@,
        "CopyFileExW"@,
        "ReplaceFileA"@,
        "ReplaceFileW"@,
        "GetDriveTypeA"@,
        "GetDriveTypeW"@,
        "DeleteFileA"@,
        "DeleteFileW"@,
        "GetPrivateProfileStringA"@,
        "GetPrivateProfileStringW"@,
        "GetPrivateProfileSectionW"@,
    ]
}

/// The shlwapi path APIs whose path arguments are rewritten.
pub open spec fn shlwapi_hook_names_spec() -> Seq<Seq<char>> {
    seq!["PathFileExistsA"@, "PathFileExistsW"@]
}

/// The kernel32 file APIs to hook, in order.
pub fn kernel_hook_names() -> (names: Vec<&'static str>)
    ensures
        names@.map_values(|n: &str| n@) == kernel_hook_names_spec(),
{
    let mut names: Vec<&'static str> = Vec::new();
    names.push("CreateFileA");
    names.push("CreateFileW");
    names.push("GetFileAttributesA");
    names.push("GetFileAttributesW");
    names.push("GetFileAttributesExA");
    names.push("GetFileAttributesExW");
    names.push("FindFirstFileA");
    names.push("FindFirstFileW");
    names.push("FindFirstFileExA");
    names.push("FindFirstFileExW");
    names.push("CreateDirectoryA");
    names.push("CreateDirectoryW");
    names.push("CreateDirectoryExA");
    names.push("CreateDirectoryExW");
    names.push("RemoveDirectoryA");
    names.push("RemoveDirectoryW");
    names.push("MoveFileA");
    names.push("MoveFileW");
    names.push("CopyFileA");
    names.push("CopyFileW");
    names.push("MoveFileExA");
    names.push("MoveFileExW");
    names.push("CopyFileExA");
    names.push("CopyFileExW");
    names.push("ReplaceFileA");
    names.push("ReplaceFileW");
    names.push("GetDriveTypeA");
    names.push("GetDriveTypeW");
    names.push("DeleteFileA");
    names.push("DeleteFileW");
    names.push("GetPrivateProfileStringA");
    names.push("GetPrivateProfileStringW");
    names.push("GetPrivateProfileSectionW");
    assert(names@.map_values(|n: &str| n@) =~= kernel_hook_names_spec());
    names
}

/// The shlwapi path APIs to hook, in order.
pub fn shlwapi_hook_names() -> (names: Vec<&'static str>)
    ensures
        names@.map_values(|n: &str| n@) == shlwapi_hook_names_spec(),
{
    let mut names: Vec<&'static str> = Vec::new();
    names.push("PathFileExistsA");
    names.push("PathFileExistsW");
    assert(names@.map_values(|n: &str| n@) =~= shlwapi_hook_names_spec());
    names
}

} // verus!
