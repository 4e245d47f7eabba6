//! Process identities: names, executable paths, exclusion lists, protected
//! processes and the candidate list shown to the user.
use vstd::prelude::*;
use vstd::string::*;

use crate::text::{
    decimal, decimal_string, eq_ignore_ascii_case, lex_lt, lemma_lex_irreflexive,
    lower_seq, push_char, same_name, same_name_seq, sorted_position, str_eq, string_views, strictly_sorted, lemma_insert_sorted,
    to_ascii_lowercase, trim, trim_seq, is_whitespace_char, leading_ws, trailing_ws, lemma_leading_ws,
    lemma_trailing_ws,
};

verus! {


/// Windows processes that no feature touches.
pub open spec fn core_builtin_exclusions() -> Seq<Seq<char>> {
    seq![
        "audiodg.exe"@,
        "conhost.exe"@,
        "csrss.exe"@,
        "ctfmon.exe"@,
        "dwm.exe"@,
        "explorer.exe"@,
        "fontdrvhost.exe"@,
        "lsaiso.exe"@,
        "lsass.exe"@,
        "registry"@,
        "services.exe"@,
        "sihost.exe"@,
        "smss.exe"@,
        "system"@,
        "taskmgr.exe"@,
        "wininit.exe"@,
        "winlogon.exe"@,
    ]
}

/// The core exclusions plus shell, search and security surfaces.
pub open spec fn extended_builtin_exclusions() -> Seq<Seq<char>> {
    seq![
        "audiodg.exe"@,
        "conhost.exe"@,
        "csrss.exe"@,
        "ctfmon.exe"@,
        "dwm.exe"@,
        "explorer.exe"@,
        "fontdrvhost.exe"@,
        "lsaiso.exe"@,
        "lsass.exe"@,
        "registry"@,
        "searchapp.exe"@,
        "searchhost.exe"@,
        "securityhealthservice.exe"@,
        "securityhealthsystray.exe"@,
        "services.exe"@,
        "shellexperiencehost.exe"@,
        "sihost.exe"@,
        "smss.exe"@,
        "startmenuexperiencehost.exe"@,
        "system"@,
        "systemsettings.exe"@,
        "taskmgr.exe"@,
        "textinputhost.exe"@,
        "wininit.exe"@,
        "winlogon.exe"@,
        "wudfhost.exe"@,
    ]
}

/// The views of a list of names.
pub open spec fn names_view(list: Seq<&str>) -> Seq<Seq<char>> {
    Seq::new(list.len(), |i: int| list[i]@)
}

/// Whether some entry of `list` is the same process name as `name`.
pub open spec fn list_contains_name(list: Seq<Seq<char>>, name: Seq<char>) -> bool {
    exists|i: int| 0 <= i < list.len() && same_name_seq(#[trigger] list[i], name)
}

/// The core exclusion list.
pub fn core_builtin_process_exclusions() -> (r: Vec<&'static str>)
    ensures
        names_view(r@) == core_builtin_exclusions(),
{
    let r = vec![
        "audiodg.exe",
        "conhost.exe",
        "csrss.exe",
        "ctfmon.exe",
        "dwm.exe",
        "explorer.exe",
        "fontdrvhost.exe",
        "lsaiso.exe",
        "lsass.exe",
        "registry",
        "services.exe",
        "sihost.exe",
        "smss.exe",
        "system",
        "taskmgr.exe",
        "wininit.exe",
        "winlogon.exe",
    ];
    assert(names_view(r@) =~= core_builtin_exclusions());
    r
}

/// The extended exclusion list.
pub fn extended_builtin_process_exclusions() -> (r: Vec<&'static str>)
    ensures
        names_view(r@) == extended_builtin_exclusions(),
{
    let r = vec![
        "audiodg.exe",
        "conhost.exe",
        "csrss.exe",
        "ctfmon.exe",
        "dwm.exe",
        "explorer.exe",
        "fontdrvhost.exe",
        "lsaiso.exe",
        "lsass.exe",
        "registry",
        "searchapp.exe",
        "searchhost.exe",
        "securityhealthservice.exe",
        "securityhealthsystray.exe",
        "services.exe",
        "shellexperiencehost.exe",
        "sihost.exe",
        "smss.exe",
        "startmenuexperiencehost.exe",
        "system",
        "systemsettings.exe",
        "taskmgr.exe",
        "textinputhost.exe",
        "wininit.exe",
        "winlogon.exe",
        "wudfhost.exe",
    ];
    assert(names_view(r@) =~= extended_builtin_exclusions());
    r
}

/// Trimmed, ASCII-case-insensitive process-name equality.
pub fn same_process_name(left: &str, right: &str) -> (r: bool)
    ensures
        r == same_name_seq(left@, right@),
{
    same_name(left, right)
}

/// Whether `process_name` matches an entry of `list`.
pub fn contains_process_name(list: &[&str], process_name: &str) -> (r: bool)
    ensures
        r == list_contains_name(names_view(list@), process_name@),
{
    let mut i: usize = 0;
    while i < list.len()
        invariant
            i <= list@.len(),
            forall|j: int| 0 <= j < i ==> !same_name_seq(#[trigger] list@[j]@, process_name@),
        decreases list@.len() - i,
    {
        if same_process_name(list[i], process_name) {
            assert(names_view(list@)[i as int] == list@[i as int]@);
            return true;
        }
        i = i + 1;
    }
    assert forall|j: int| 0 <= j < names_view(list@).len() implies !same_name_seq(
        #[trigger] names_view(list@)[j],
        process_name@,
    ) by {
        assert(names_view(list@)[j] == list@[j]@);
    }
    false
}

/// The views of a list of owned strings.
pub open spec fn strings_view(list: Seq<String>) -> Seq<Seq<char>> {
    Seq::new(list.len(), |i: int| list[i]@)
}

/// Law: no name is in an empty list, a name's lookup does not depend on
/// surrounding whitespace or ASCII case, and a name found in a list is
/// still found once more names are added after it.
pub proof fn law_contains_process_name(a: Seq<&str>, b: Seq<&str>, name: Seq<char>, other: Seq<char>)
    ensures
        !list_contains_name(names_view(Seq::<&str>::empty()), name),
        same_name_seq(name, other) ==> list_contains_name(names_view(a), name) == list_contains_name(
            names_view(a),
            other,
        ),
        list_contains_name(names_view(a), name) ==> list_contains_name(names_view(a + b), name),
{
    if same_name_seq(name, other) {
        assert forall|i: int| 0 <= i < names_view(a).len() implies same_name_seq(#[trigger] names_view(a)[i], name)
            == same_name_seq(names_view(a)[i], other) by {}
    }
    if list_contains_name(names_view(a), name) {
        let i = choose|i: int| 0 <= i < names_view(a).len() && same_name_seq(#[trigger] names_view(a)[i], name);
        assert(names_view(a + b)[i] == names_view(a)[i]);
    }
}

/// Whether `process_name` matches an entry of a list of owned names.
pub fn contains_process_name_in(list: &Vec<String>, process_name: &str) -> (r: bool)
    ensures
        r == list_contains_name(strings_view(list@), process_name@),
{
    let mut i: usize = 0;
    while i < list.len()
        invariant
            i <= list@.len(),
            forall|j: int| 0 <= j < i ==> !same_name_seq(#[trigger] list@[j]@, process_name@),
        decreases list@.len() - i,
    {
        if same_process_name(list[i].as_str(), process_name) {
            assert(strings_view(list@)[i as int] == list@[i as int]@);
            return true;
        }
        i = i + 1;
    }
    assert forall|j: int| 0 <= j < strings_view(list@).len() implies !same_name_seq(
        #[trigger] strings_view(list@)[j],
        process_name@,
    ) by {
        assert(strings_view(list@)[j] == list@[j]@);
    }
    false
}

/// Forward slashes become the Windows path separator.
pub open spec fn windows_separator(c: char) -> char {
    if c == '/' {
        '\\'
    } else {
        c
    }
}

/// The comparison key of an executable path: trimmed, with `/` turned into
/// `\`.
pub open spec fn path_key(path: Seq<char>) -> Seq<char> {
    Seq::new(trim_seq(path).len(), |i: int| windows_separator(trim_seq(path)[i]))
}

/// The comparison key of an executable path.
pub fn executable_path_key(path: &str) -> (r: String)
    ensures
        r@ == path_key(path@),
{
    let t = trim(path);
    let n = t.unicode_len();
    let mut out = String::new();
    let mut i: usize = 0;
    while i < n
        invariant
            n == t@.len(),
            t@ == trim_seq(path@),
            i <= n,
            out@ =~= Seq::new(i as nat, |j: int| windows_separator(t@[j])),
        decreases n - i,
    {
        let c = t.get_char(i);
        let c = if c == '/' {
            '\\'
        } else {
            c
        };
        push_char(&mut out, c);
        i = i + 1;
    }
    out
}

proof fn lemma_leading_stop(s: Seq<char>)
    ensures
        leading_ws(s) <= s.len(),
        forall|j: int| 0 <= j < leading_ws(s) ==> is_whitespace_char(#[trigger] s[j]),
        leading_ws(s) < s.len() ==> !is_whitespace_char(s[leading_ws(s) as int]),
    decreases s.len(),
{
    if s.len() > 0 && is_whitespace_char(s[0]) {
        let t = s.drop_first();
        lemma_leading_stop(t);
        assert forall|j: int| 0 <= j < leading_ws(s) implies is_whitespace_char(#[trigger] s[j]) by {
            if j > 0 {
                assert(s[j] == t[j - 1]);
            }
        }
        if leading_ws(s) < s.len() {
            assert(s[leading_ws(s) as int] == t[leading_ws(t) as int]);
        }
    }
}

proof fn lemma_trailing_stop(s: Seq<char>)
    ensures
        trailing_ws(s) <= s.len(),
        forall|j: int| s.len() - trailing_ws(s) <= j < s.len() ==> is_whitespace_char(#[trigger] s[j]),
        trailing_ws(s) < s.len() ==> !is_whitespace_char(s[s.len() - trailing_ws(s) - 1]),
    decreases s.len(),
{
    if s.len() > 0 && is_whitespace_char(s.last()) {
        let t = s.drop_last();
        lemma_trailing_stop(t);
        assert forall|j: int| s.len() - trailing_ws(s) <= j < s.len() implies is_whitespace_char(#[trigger] s[j]) by {
            if j < s.len() - 1 {
                assert(s[j] == t[j]);
            }
        }
        if trailing_ws(s) < s.len() {
            assert(s[s.len() - trailing_ws(s) - 1] == t[t.len() - trailing_ws(t) - 1]);
        }
    }
}

proof fn lemma_trim_ends(s: Seq<char>)
    ensures
        trim_seq(s).len() > 0 ==> !is_whitespace_char(trim_seq(s)[0]) && !is_whitespace_char(
            trim_seq(s)[trim_seq(s).len() - 1],
        ),
{
    lemma_leading_stop(s);
    lemma_trailing_stop(s);
    let l = leading_ws(s) as int;
    let t = trailing_ws(s) as int;
    if l < s.len() {
        if s.len() - t <= l {
            assert(is_whitespace_char(s[l]));
        }
        assert(trim_seq(s)[0] == s[l]);
        assert(trim_seq(s)[trim_seq(s).len() - 1] == s[s.len() - t - 1]);
    }
}

/// Two paths that differ at most in `/` against `\` trim alike.
proof fn lemma_trim_separators(p: Seq<char>, q: Seq<char>)
    requires
        p.len() == q.len(),
        forall|i: int| 0 <= i < p.len() ==> windows_separator(#[trigger] p[i]) == windows_separator(q[i]),
    ensures
        leading_ws(p) == leading_ws(q),
        trailing_ws(p) == trailing_ws(q),
{
    assert forall|i: int| 0 <= i < p.len() implies is_whitespace_char(#[trigger] p[i]) == is_whitespace_char(q[i]) by {
        assert(windows_separator(p[i]) == windows_separator(q[i]));
        if p[i] != q[i] {
            assert(p[i] == '/' || p[i] == '\\');
            assert(q[i] == '/' || q[i] == '\\');
        }
    }
    lemma_leading_stop(p);
    lemma_trailing_stop(p);
    let l = leading_ws(p) as int;
    let t = trailing_ws(p) as int;
    assert forall|j: int| 0 <= j < l implies is_whitespace_char(#[trigger] q[j]) by {
        assert(is_whitespace_char(p[j]));
    }
    if l < q.len() {
        assert(!is_whitespace_char(p[l]));
    }
    lemma_leading_ws(q, l);
    assert forall|j: int| q.len() - t <= j < q.len() implies is_whitespace_char(#[trigger] q[j]) by {
        assert(is_whitespace_char(p[j]));
    }
    if t < q.len() {
        assert(!is_whitespace_char(p[p.len() - t - 1]));
    }
    lemma_trailing_ws(q, t);
}

/// Law: an executable path's key holds no `/` and no leading or trailing
/// whitespace, is its own key, and two paths that differ only in `/`
/// against `\` have the same key.
pub proof fn law_executable_path_key(p: Seq<char>, q: Seq<char>)
    ensures
        !path_key(p).contains('/'),
        path_key(p).len() > 0 ==> !is_whitespace_char(path_key(p)[0]) && !is_whitespace_char(
            path_key(p)[path_key(p).len() - 1],
        ),
        path_key(path_key(p)) == path_key(p),
        (p.len() == q.len() && forall|i: int| 0 <= i < p.len() ==> windows_separator(#[trigger] p[i])
            == windows_separator(q[i])) ==> path_key(p) == path_key(q),
{
    let k = path_key(p);
    let tp = trim_seq(p);
    lemma_trim_ends(p);
    if k.len() > 0 {
        assert(k[0] == windows_separator(tp[0]));
        assert(k[k.len() - 1] == windows_separator(tp[tp.len() - 1]));
    }
    if k.contains('/') {
        let i = choose|i: int| 0 <= i < k.len() && k[i] == '/';
        assert(k[i] == windows_separator(tp[i]));
    }
    lemma_leading_ws(k, 0);
    lemma_trailing_ws(k, 0);
    if k.len() > 0 {
        assert(trim_seq(k) =~= k);
    } else {
        assert(trim_seq(k) =~= k);
    }
    assert(path_key(k) =~= k) by {
        assert forall|i: int| 0 <= i < k.len() implies windows_separator(k[i]) == k[i] by {
            assert(k[i] == windows_separator(tp[i]));
        }
    }
    if p.len() == q.len() && forall|i: int| 0 <= i < p.len() ==> windows_separator(#[trigger] p[i]) == windows_separator(q[i]) {
        lemma_trim_separators(p, q);
        lemma_leading_stop(p);
        lemma_trailing_stop(p);
        let tq = trim_seq(q);
        let l = leading_ws(p) as int;
        let t = trailing_ws(p) as int;
        if l < p.len() {
            if p.len() - t <= l {
                assert(is_whitespace_char(p[l]));
            }
            assert(tp =~= p.subrange(l, p.len() - t));
            assert(tq =~= q.subrange(l, q.len() - t));
            assert forall|i: int| 0 <= i < tp.len() implies windows_separator(tp[i]) == windows_separator(tq[i]) by {
                assert(tp[i] == p[l + i]);
                assert(tq[i] == q[l + i]);
            }
        } else {
            assert(tp.len() == 0 && tq.len() == 0);
        }
        assert(path_key(p) =~= path_key(q));
    }
}

/// A process as the process list reports it.
#[derive(Debug, Clone, PartialEq, Eq)]
pub struct ProcessInfo {
    pub id: u32,
    pub parent_id: Option<u32>,
    pub session_id: Option<u32>,
    pub user_name: Option<String>,
    pub is_service_account: Option<bool>,
    pub is_critical: Option<bool>,
    pub can_set_information: bool,
    pub name: String,
    pub image_path: Option<String>,
    pub creation_time: Option<u64>,
}

/// The result of resolving one path to its canonical form; `None` when the
/// resolution failed.
#[derive(Debug, Clone, PartialEq, Eq)]
pub struct CanonicalPath {
    pub path: String,
    pub canonical: Option<String>,
}

/// Canonical forms of the paths a comparison may need, resolved by the
/// caller on the file system. A path that is not listed counts as one whose
/// resolution failed.
#[derive(Debug, Clone, PartialEq, Eq, Default)]
pub struct CanonicalPaths {
    pub entries: Vec<CanonicalPath>,
}

/// The canonical form of `p` by the first entry for it.
pub open spec fn canonical_of(entries: Seq<CanonicalPath>, p: Seq<char>) -> Option<Seq<char>>
    decreases entries.len(),
{
    if entries.len() == 0 {
        None
    } else if entries[0].path@ == p {
        match entries[0].canonical {
            Some(c) => Some(c@),
            None => None,
        }
    } else {
        canonical_of(entries.drop_first(), p)
    }
}

/// Two executable paths name the same file: their keys are equal, or equal
/// but for ASCII case and the canonical forms agree (or neither resolves).
pub open spec fn same_executable_path_spec(
    left: Seq<char>,
    right: Seq<char>,
    canonical: Seq<CanonicalPath>,
) -> bool {
    let lk = path_key(left);
    let rk = path_key(right);
    if lk == rk {
        true
    } else if lower_seq(lk) != lower_seq(rk) {
        false
    } else {
        match (canonical_of(canonical, left), canonical_of(canonical, right)) {
            (Some(a), Some(b)) => path_key(a) == path_key(b),
            (None, None) => true,
            _ => false,
        }
    }
}

impl CanonicalPaths {
    pub fn new() -> (r: Self)
        ensures
            r.entries@.len() == 0,
    {
        CanonicalPaths { entries: Vec::new() }
    }

    /// The canonical form of `path`, if it was resolved.
    pub fn lookup(&self, path: &str) -> (r: Option<String>)
        ensures
            match r {
                Some(c) => canonical_of(self.entries@, path@) == Some(c@),
                None => canonical_of(self.entries@, path@) is None,
            },
    {
        let mut i: usize = 0;
        assert(self.entries@.skip(0) =~= self.entries@);
        while i < self.entries.len()
            invariant
                i <= self.entries@.len(),
                canonical_of(self.entries@, path@) == canonical_of(self.entries@.skip(i as int), path@),
            decreases self.entries@.len() - i,
        {
            let ghost rest = self.entries@.skip(i as int);
            assert(rest[0] == self.entries@[i as int]);
            assert(rest.drop_first() =~= self.entries@.skip(i + 1));
            if str_eq(self.entries[i].path.as_str(), path) {
                return match &self.entries[i].canonical {
                    Some(c) => Some(c.clone()),
                    None => None,
                };
            }
            i = i + 1;
        }
        None
    }
}

/// Whether two executable paths name the same file (see
/// [`same_executable_path_spec`]).
pub fn same_executable_path(left: &str, right: &str, canonical: &CanonicalPaths) -> (r: bool)
    ensures
        r == same_executable_path_spec(left@, right@, canonical.entries@),
{
    let left_key = executable_path_key(left);
    let right_key = executable_path_key(right);
    if str_eq(left_key.as_str(), right_key.as_str()) {
        return true;
    }
    if !eq_ignore_ascii_case(left_key.as_str(), right_key.as_str()) {
        return false;
    }
    match (canonical.lookup(left), canonical.lookup(right)) {
        (Some(a), Some(b)) => {
            let ak = executable_path_key(a.as_str());
            let bk = executable_path_key(b.as_str());
            str_eq(ak.as_str(), bk.as_str())
        },
        (None, None) => true,
        _ => false,
    }
}

/// Whether a process is the foreground app: the same process id, or the same
/// executable as the foreground app.
pub fn is_foreground_process(
    process_id: u32,
    executable_path: &str,
    foreground_process_id: Option<u32>,
    foreground_executable_path: Option<&str>,
    canonical: &CanonicalPaths,
) -> (r: bool)
    ensures
        r == (foreground_process_id == Some(process_id) || match foreground_executable_path {
            Some(f) => same_executable_path_spec(f@, executable_path@, canonical.entries@),
            None => false,
        }),
{
    if foreground_process_id == Some(process_id) {
        return true;
    }
    match foreground_executable_path {
        Some(f) => same_executable_path(f, executable_path, canonical),
        None => false,
    }
}

/// Whether a feature that excludes the foreground app must skip the process.
pub fn should_ignore_foreground_process(
    exclude_foreground_app: bool,
    process_id: u32,
    executable_path: &str,
    foreground_process_id: Option<u32>,
    foreground_executable_path: Option<&str>,
    canonical: &CanonicalPaths,
) -> (r: bool)
    ensures
        r == (exclude_foreground_app && (foreground_process_id == Some(process_id) || match foreground_executable_path {
            Some(f) => same_executable_path_spec(f@, executable_path@, canonical.entries@),
            None => false,
        })),
{
    exclude_foreground_app && is_foreground_process(
        process_id,
        executable_path,
        foreground_process_id,
        foreground_executable_path,
        canonical,
    )
}

/// The executable path of a process: the one the process list holds, else
/// `os_image_path`, the path Windows reports for the process id (read by
/// the caller only when the list holds none).
pub fn process_executable_path(process: &ProcessInfo, os_image_path: Option<&str>) -> (r: Option<String>)
    ensures
        match (r, process.image_path) {
            (Some(a), Some(b)) => a@ == b@,
            (_, Some(_)) => false,
            (Some(a), None) => os_image_path matches Some(o) && a@ == o@,
            (None, None) => os_image_path is None,
        },
{
    match &process.image_path {
        Some(p) => Some(p.clone()),
        None => match os_image_path {
            Some(o) => Some(String::from_str(o)),
            None => None,
        },
    }
}

pub open spec fn image_path_view(process: ProcessInfo) -> Option<Seq<char>> {
    match process.image_path {
        Some(p) => Some(p@),
        None => None,
    }
}

/// The processes that an interactive or visible-window rule protects.
pub struct ProtectedProcesses {
    pub process_ids: Vec<u32>,
    pub executable_paths: Vec<String>,
}

/// The path of the listed process at position `k`: the listed one, else
/// the one Windows reported for it.
pub open spec fn path_at(ps: Seq<ProcessInfo>, reported: Seq<Option<String>>, k: int) -> Option<Seq<char>> {
    match ps[k].image_path {
        Some(p) => Some(p@),
        None => if 0 <= k < reported.len() {
            match reported[k] {
                Some(p) => Some(p@),
                None => None,
            }
        } else {
            None
        },
    }
}

fn process_path_at(processes: &Vec<ProcessInfo>, reported: &Vec<Option<String>>, k: usize) -> (r: Option<String>)
    requires
        k < processes@.len(),
    ensures
        match r {
            Some(p) => path_at(processes@, reported@, k as int) == Some(p@),
            None => path_at(processes@, reported@, k as int) is None,
        },
{
    match &processes[k].image_path {
        Some(p) => Some(p.clone()),
        None => if k < reported.len() {
            match &reported[k] {
                Some(p) => Some(p.clone()),
                None => None,
            }
        } else {
            None
        },
    }
}

impl ProtectedProcesses {
    /// The processes whose windows are visible, plus the foreground app when
    /// it is protected, and the executable paths of those processes: the
    /// listed path, else the one Windows reports (`reported_paths`, by list
    /// position, read by the caller for processes the list has no path for).
    pub fn capture(
        processes: &Vec<ProcessInfo>,
        protect_foreground_app: bool,
        foreground_process_id: Option<u32>,
        visible_window_process_ids: &Vec<u32>,
        reported_paths: &Vec<Option<String>>,
    ) -> (r: Self)
        ensures
            forall|id: u32| r.process_ids@.contains(id) <==> (visible_window_process_ids@.contains(id) || (
            protect_foreground_app && foreground_process_id == Some(id))),
            forall|p: Seq<char>| string_views(r.executable_paths@).contains(p) <==> exists|i: int|
                0 <= i < processes@.len() && r.process_ids@.contains(processes@[i].id)
                    && #[trigger] path_at(processes@, reported_paths@, i) == Some(p),
    {
        let mut ids = copy_ids(visible_window_process_ids);
        let ghost base = visible_window_process_ids@;
        if protect_foreground_app {
            if let Some(id) = foreground_process_id {
                ids.push(id);
                proof {
                    assert(ids@ =~= base.push(id));
                    assert forall|x: u32| ids@.contains(x) <==> (base.contains(x) || x == id) by {
                        if ids@.contains(x) {
                            let k = choose|k: int| 0 <= k < ids@.len() && ids@[k] == x;
                            if k < base.len() {
                                assert(base[k] == x);
                            }
                        }
                        if base.contains(x) {
                            let k = choose|k: int| 0 <= k < base.len() && base[k] == x;
                            assert(ids@[k] == x);
                        }
                        if x == id {
                            assert(ids@[base.len() as int] == x);
                        }
                    }
                }
            }
        }
        let mut paths: Vec<String> = Vec::new();
        let mut i: usize = 0;
        while i < processes.len()
            invariant
                i <= processes@.len(),
                forall|p: Seq<char>| string_views(paths@).contains(p) <==> exists|k: int|
                    0 <= k < i && ids@.contains(processes@[k].id)
                        && #[trigger] path_at(processes@, reported_paths@, k) == Some(p),
            decreases processes@.len() - i,
        {
            let listed = contains_id(&ids, processes[i].id);
            let found = process_path_at(processes, reported_paths, i);
            if listed {
                if let Some(path) = found {
                    let ghost old_paths = paths@;
                    let ghost pv = path@;
                    paths.push(path);
                    proof {
                        let nv = string_views(paths@);
                        let ov = string_views(old_paths);
                        assert(nv =~= ov.push(pv));
                        assert(path_at(processes@, reported_paths@, i as int) == Some(pv));
                        assert forall|p: Seq<char>| nv.contains(p) implies exists|k: int|
                            0 <= k < i + 1 && ids@.contains(processes@[k].id)
                                && #[trigger] path_at(processes@, reported_paths@, k) == Some(p) by {
                            let m = choose|m: int| 0 <= m < nv.len() && nv[m] == p;
                            if m < ov.len() {
                                assert(ov[m] == p);
                                assert(ov.contains(p));
                            }
                        }
                        assert forall|p: Seq<char>| (exists|k: int|
                            0 <= k < i + 1 && ids@.contains(processes@[k].id)
                                && #[trigger] path_at(processes@, reported_paths@, k) == Some(p)) implies nv.contains(p) by {
                            let k = choose|k: int| 0 <= k < i + 1 && ids@.contains(processes@[k].id)
                                && #[trigger] path_at(processes@, reported_paths@, k) == Some(p);
                            if k < i {
                                assert(ov.contains(p));
                                let m = choose|m: int| 0 <= m < ov.len() && ov[m] == p;
                                assert(nv[m] == p);
                            } else {
                                assert(nv[nv.len() - 1] == p);
                            }
                        }
                    }
                } else {
                    assert forall|p: Seq<char>| string_views(paths@).contains(p) <==> exists|k: int|
                        0 <= k < i + 1 && ids@.contains(processes@[k].id)
                            && #[trigger] path_at(processes@, reported_paths@, k) == Some(p) by {
                        if exists|k: int| 0 <= k < i + 1 && ids@.contains(processes@[k].id)
                            && #[trigger] path_at(processes@, reported_paths@, k) == Some(p) {
                            let k = choose|k: int| 0 <= k < i + 1 && ids@.contains(processes@[k].id)
                                && #[trigger] path_at(processes@, reported_paths@, k) == Some(p);
                            assert(k != i);
                        }
                    }
                }
            } else {
                assert forall|p: Seq<char>| string_views(paths@).contains(p) <==> exists|k: int|
                    0 <= k < i + 1 && ids@.contains(processes@[k].id)
                        && #[trigger] path_at(processes@, reported_paths@, k) == Some(p) by {
                    if exists|k: int| 0 <= k < i + 1 && ids@.contains(processes@[k].id)
                        && #[trigger] path_at(processes@, reported_paths@, k) == Some(p) {
                        let k = choose|k: int| 0 <= k < i + 1 && ids@.contains(processes@[k].id)
                            && #[trigger] path_at(processes@, reported_paths@, k) == Some(p);
                        assert(k != i);
                    }
                }
            }
            i = i + 1;
        }
        ProtectedProcesses { process_ids: ids, executable_paths: paths }
    }

    /// Whether a process is protected: by its id, or by being the same
    /// executable as a protected process.
    pub open spec fn protects(&self, process_id: u32, executable_path: Seq<char>, canonical: Seq<CanonicalPath>) -> bool {
        self.process_ids@.contains(process_id) || exists|i: int|
            0 <= i < self.executable_paths@.len() && same_executable_path_spec(
                #[trigger] self.executable_paths@[i]@,
                executable_path,
                canonical,
            )
    }

    /// Whether a process is protected: by its id, or by being the same
    /// executable as a protected process.
    pub fn contains(&self, process_id: u32, executable_path: &str, canonical: &CanonicalPaths) -> (r: bool)
        ensures
            r == self.protects(process_id, executable_path@, canonical.entries@),
            r == (self.process_ids@.contains(process_id) || exists|i: int|
                0 <= i < self.executable_paths@.len() && same_executable_path_spec(
                    #[trigger] self.executable_paths@[i]@,
                    executable_path@,
                    canonical.entries@,
                )),
    {
        if contains_id(&self.process_ids, process_id) {
            return true;
        }
        let mut i: usize = 0;
        while i < self.executable_paths.len()
            invariant
                i <= self.executable_paths@.len(),
                forall|j: int| 0 <= j < i ==> !same_executable_path_spec(
                    #[trigger] self.executable_paths@[j]@,
                    executable_path@,
                    canonical.entries@,
                ),
            decreases self.executable_paths@.len() - i,
        {
            if same_executable_path(self.executable_paths[i].as_str(), executable_path, canonical) {
                return true;
            }
            i = i + 1;
        }
        false
    }
}

/// A copy of a list of ids.
pub fn copy_ids(ids: &Vec<u32>) -> (r: Vec<u32>)
    ensures
        r@ == ids@,
{
    let mut r: Vec<u32> = Vec::new();
    let mut i: usize = 0;
    while i < ids.len()
        invariant
            i <= ids@.len(),
            r@ == ids@.subrange(0, i as int),
        decreases ids@.len() - i,
    {
        r.push(ids[i]);
        i = i + 1;
        assert(r@ =~= ids@.subrange(0, i as int));
    }
    assert(ids@.subrange(0, ids@.len() as int) =~= ids@);
    r
}

/// Whether `id` is in `ids`.
pub fn contains_id(ids: &Vec<u32>, id: u32) -> (r: bool)
    ensures
        r == ids@.contains(id),
{
    let mut i: usize = 0;
    while i < ids.len()
        invariant
            i <= ids@.len(),
            forall|j: int| 0 <= j < i ==> ids@[j] != id,
        decreases ids@.len() - i,
    {
        if ids[i] == id {
            assert(ids@[i as int] == id);
            return true;
        }
        i = i + 1;
    }
    false
}

pub open spec fn is_path_separator(c: char) -> bool {
    c == '/' || c == '\\'
}

/// The number of separators at the end of `p`.
pub open spec fn trailing_separators(p: Seq<char>) -> nat
    decreases p.len(),
{
    if p.len() > 0 && is_path_separator(p.last()) { 1 + trailing_separators(p.drop_last()) } else { 0 }
}

/// The length of `p` up to and including its last separator.
pub open spec fn dir_prefix_len(p: Seq<char>) -> nat
    decreases p.len(),
{
    if p.len() == 0 {
        0
    } else if is_path_separator(p.last()) {
        p.len()
    } else {
        dir_prefix_len(p.drop_last())
    }
}

/// The last component of a Windows path, ignoring trailing separators; none
/// when it is empty, `.` or `..`.
pub open spec fn file_name_of(p: Seq<char>) -> Option<Seq<char>> {
    let q = p.subrange(0, p.len() - trailing_separators(p));
    let c = q.subrange(dir_prefix_len(q) as int, q.len() as int);
    if c.len() == 0 || c == "."@ || c == ".."@ { None } else { Some(c) }
}

proof fn lemma_trailing_separators(p: Seq<char>, k: int)
    requires
        0 <= k <= p.len(),
        forall|j: int| p.len() - k <= j < p.len() ==> is_path_separator(#[trigger] p[j]),
        k == p.len() || !is_path_separator(p[p.len() - k - 1]),
    ensures
        trailing_separators(p) == k,
    decreases k,
{
    if k > 0 {
        let t = p.drop_last();
        assert forall|j: int| t.len() - (k - 1) <= j < t.len() implies is_path_separator(#[trigger] t[j]) by {
            assert(t[j] == p[j]);
        }
        if k - 1 < t.len() {
            assert(t[t.len() - (k - 1) - 1] == p[p.len() - k - 1]);
        }
        lemma_trailing_separators(t, k - 1);
    }
}

proof fn lemma_dir_prefix_len(q: Seq<char>, start: int)
    requires
        0 <= start <= q.len(),
        forall|j: int| start <= j < q.len() ==> !is_path_separator(#[trigger] q[j]),
        start == 0 || is_path_separator(q[start - 1]),
    ensures
        dir_prefix_len(q) == start,
    decreases q.len(),
{
    if q.len() > start {
        assert(!is_path_separator(q[q.len() - 1]));
        let t = q.drop_last();
        assert forall|j: int| start <= j < t.len() implies !is_path_separator(#[trigger] t[j]) by {
            assert(t[j] == q[j]);
        }
        if start > 0 {
            assert(t[start - 1] == q[start - 1]);
        }
        lemma_dir_prefix_len(t, start);
    } else if q.len() > 0 {
        assert(is_path_separator(q.last()));
    }
}

/// The file name of a Windows path (see [`file_name_of`]).
pub fn path_file_name(path: &str) -> (r: Option<&str>)
    ensures
        match r {
            Some(f) => file_name_of(path@) == Some(f@),
            None => file_name_of(path@) is None,
        },
{
    let n = path.unicode_len();
    let mut end: usize = n;
    while end > 0
        invariant
            n == path@.len(),
            end <= n,
            forall|j: int| end <= j < n ==> is_path_separator(#[trigger] path@[j]),
        ensures
            end <= n,
            forall|j: int| end <= j < n ==> is_path_separator(#[trigger] path@[j]),
            end == 0 || !is_path_separator(path@[end - 1]),
        decreases end,
    {
        let c = path.get_char(end - 1);
        if c != '/' && c != '\\' {
            break;
        }
        end = end - 1;
    }
    proof {
        lemma_trailing_separators(path@, (n - end) as int);
    }
    let ghost q = path@.subrange(0, end as int);
    let mut start: usize = end;
    while start > 0
        invariant
            n == path@.len(),
            start <= end <= n,
            forall|j: int| start <= j < end ==> !is_path_separator(#[trigger] path@[j]),
        ensures
            start <= end,
            forall|j: int| start <= j < end ==> !is_path_separator(#[trigger] path@[j]),
            start == 0 || is_path_separator(path@[start - 1]),
        decreases start,
    {
        let c = path.get_char(start - 1);
        if c == '/' || c == '\\' {
            break;
        }
        start = start - 1;
    }
    proof {
        assert forall|j: int| start <= j < q.len() implies !is_path_separator(#[trigger] q[j]) by {
            assert(q[j] == path@[j]);
        }
        if start > 0 {
            assert(q[start - 1] == path@[start - 1]);
        }
        lemma_dir_prefix_len(q, start as int);
    }
    let name = path.substring_char(start, end);
    assert(name@ =~= q.subrange(start as int, q.len() as int));
    if end == start || str_eq(name, ".") || str_eq(name, "..") {
        proof {
            reveal_strlit(".");
            reveal_strlit("..");
        }
        return None;
    }
    proof {
        reveal_strlit(".");
        reveal_strlit("..");
    }
    Some(name)
}

/// Whether a process runs the executable at `executable_path`: its name is
/// the path's file name and its image (the listed path, else
/// `reported_path`, the one Windows reports) is the same file.
pub fn process_matches_executable_path(
    process: &ProcessInfo,
    executable_path: &str,
    canonical: &CanonicalPaths,
    reported_path: Option<&str>,
) -> (r: bool)
    ensures
        r == match file_name_of(trim_seq(executable_path@)) {
            None => false,
            Some(f) => same_name_seq(process.name@, f) && match image_path_view(*process) {
                Some(actual) => same_executable_path_spec(actual, trim_seq(executable_path@), canonical.entries@),
                None => match reported_path {
                    Some(actual) => same_executable_path_spec(actual@, trim_seq(executable_path@), canonical.entries@),
                    None => false,
                },
            },
        },
{
    let path = trim(executable_path);
    let file_name = match path_file_name(path) {
        Some(f) => f,
        None => return false,
    };
    if !same_process_name(process.name.as_str(), file_name) {
        return false;
    }
    match &process.image_path {
        Some(actual) => same_executable_path(actual.as_str(), path, canonical),
        None => match reported_path {
            Some(actual) => same_executable_path(actual, path, canonical),
            None => false,
        },
    }
}

/// A program the user can pick: one entry per executable.
#[derive(Debug, Clone, PartialEq, Eq)]
pub struct ProcessCandidateInfo {
    pub name: String,
    pub image_path: String,
    pub has_suspendable_instance: bool,
}

/// A process that may be listed: verified non-critical, open to control and
/// with a known image path.
pub open spec fn candidate_eligible(p: ProcessInfo) -> bool {
    p.is_critical == Some(false) && p.can_set_information && p.image_path is Some
}

/// The key of an image path (see [`path_key`]).
#[verifier::opaque]
pub open spec fn ckey(path: Seq<char>) -> Seq<char> {
    path_key(path)
}

pub open spec fn candidate_key(p: ProcessInfo) -> Seq<char> {
    ckey(p.image_path->Some_0@)
}

/// A process in an interactive session under a user account.
pub open spec fn suspendable(p: ProcessInfo) -> bool {
    (p.session_id matches Some(s) && s != 0) && p.is_service_account == Some(false)
}

pub open spec fn info_key(c: ProcessCandidateInfo) -> Seq<char> {
    ckey(c.image_path@)
}

pub open spec fn info_keys(cs: Seq<ProcessCandidateInfo>) -> Seq<Seq<char>> {
    Seq::new(cs.len(), |j: int| info_key(cs[j]))
}

/// The index of the first of the first `n` processes that is eligible with
/// key `k`, or -1.
pub open spec fn first_index(ps: Seq<ProcessInfo>, n: int, k: Seq<char>) -> int
    decreases n,
{
    if n <= 0 {
        -1
    } else if first_index(ps, n - 1, k) >= 0 {
        first_index(ps, n - 1, k)
    } else if candidate_eligible(ps[n - 1]) && candidate_key(ps[n - 1]) == k {
        n - 1
    } else {
        -1
    }
}

pub open spec fn cands_first(cs: Seq<ProcessCandidateInfo>, ps: Seq<ProcessInfo>, n: int) -> bool {
    forall|j: int|
        0 <= j < cs.len() ==> {
            let f = first_index(ps, n, info_key(#[trigger] cs[j]));
            0 <= f && cs[j].name@ == ps[f].name@ && cs[j].image_path@ == ps[f].image_path->Some_0@
        }
}

pub open spec fn cands_cover(cs: Seq<ProcessCandidateInfo>, ps: Seq<ProcessInfo>, n: int) -> bool {
    forall|k: int|
        0 <= k < n && candidate_eligible(#[trigger] ps[k]) ==> exists|j: int|
            0 <= j < cs.len() && info_key(cs[j]) == candidate_key(ps[k])
}

pub open spec fn has_suspendable(ps: Seq<ProcessInfo>, n: int, key: Seq<char>) -> bool {
    exists|k: int| 0 <= k < n && candidate_eligible(ps[k]) && candidate_key(ps[k]) == key && #[trigger] suspendable(ps[k])
}

pub open spec fn cands_susp(cs: Seq<ProcessCandidateInfo>, ps: Seq<ProcessInfo>, n: int) -> bool {
    forall|j: int|
        0 <= j < cs.len() ==> (#[trigger] cs[j].has_suspendable_instance <==> has_suspendable(ps, n, info_key(cs[j])))
}

/// The candidates of the first `n` processes: one per key, in key order, named
/// after the first process with that key, and suspendable when any of those
/// processes is.
pub open spec fn candidates_of(cs: Seq<ProcessCandidateInfo>, ps: Seq<ProcessInfo>, n: int) -> bool {
    &&& strictly_sorted(info_keys(cs))
    &&& cands_first(cs, ps, n)
    &&& cands_cover(cs, ps, n)
    &&& cands_susp(cs, ps, n)
}

/// The programs the user can pick from a process list: one entry per
/// executable path key, in key order.
#[verifier::spinoff_prover]
#[verifier::rlimit(40)]
pub fn process_candidates_from_processes(processes: &Vec<ProcessInfo>) -> (r: Vec<ProcessCandidateInfo>)
    ensures
        candidates_of(r@, processes@, processes@.len() as int),
{
    let mut keys: Vec<String> = Vec::new();
    let mut cands: Vec<ProcessCandidateInfo> = Vec::new();
    let mut i: usize = 0;
    while i < processes.len()
        invariant
            i <= processes@.len(),
            keys@.len() == cands@.len(),
            string_views(keys@) == info_keys(cands@),
            candidates_of(cands@, processes@, i as int),
        decreases processes@.len() - i,
    {
        let ghost ps = processes@;
        let ghost old_cands = cands@;
        let process = &processes[i];
        if process.is_critical != Some(false) || !process.can_set_information {
            proof {
                assert(!candidate_eligible(ps[i as int]));
                lemma_candidates_skip(old_cands, ps, i as int);
            }
            i = i + 1;
            continue;
        }
        let image_path = match &process.image_path {
            Some(p) => p,
            None => {
                proof {
                    lemma_candidates_skip(old_cands, ps, i as int);
                }
                i = i + 1;
                continue;
            },
        };
        let susp = match process.session_id {
            Some(s) => s != 0,
            None => false,
        } && process.is_service_account == Some(false);
        let key = executable_path_key(image_path.as_str());
        proof {
            reveal(ckey);
            assert(key@ == candidate_key(ps[i as int]));
        }
        let (pos, found) = sorted_position(&keys, key.as_str());
        if found {
            let mut c = cands[pos].clone();
            let ghost oc = cands@[pos as int];
            c = ProcessCandidateInfo {
                name: cands[pos].name.clone(),
                image_path: cands[pos].image_path.clone(),
                has_suspendable_instance: cands[pos].has_suspendable_instance || susp,
            };
            cands.set(pos, c);
            proof {
                assert(string_views(keys@)[pos as int] == keys@[pos as int]@);
                assert(info_keys(old_cands)[pos as int] == info_key(old_cands[pos as int]));
                lemma_candidates_merge(old_cands, cands@, ps, i as int, pos as int);
            }
        } else {
            let ghost old_keys = keys@;
            keys.insert(pos, key.clone());
            cands.insert(
                pos,
                ProcessCandidateInfo {
                    name: process.name.clone(),
                    image_path: image_path.clone(),
                    has_suspendable_instance: susp,
                },
            );
            proof {
                assert forall|j: int| 0 <= j < pos implies lex_lt(#[trigger] string_views(old_keys)[j], key@) by {
                    assert(string_views(old_keys)[j] == old_keys[j]@);
                }
                assert forall|j: int| pos <= j < old_keys.len() implies lex_lt(key@, #[trigger] string_views(old_keys)[j]) by {
                    assert(string_views(old_keys)[j] == old_keys[j]@);
                }
                assert forall|j: int| 0 <= j < old_keys.len() implies #[trigger] string_views(old_keys)[j] != key@ by {
                    assert(string_views(old_keys)[j] == old_keys[j]@);
                }
                lemma_insert_sorted(string_views(old_keys), pos as int, key@);
                assert(string_views(keys@) =~= string_views(old_keys).insert(pos as int, key@));
                assert(info_keys(cands@) =~= info_keys(old_cands).insert(pos as int, key@));
                assert forall|j: int| 0 <= j < old_cands.len() implies info_key(#[trigger] old_cands[j]) != candidate_key(ps[i as int]) by {
                    assert(info_keys(old_cands)[j] == info_key(old_cands[j]));
                }
                lemma_candidates_insert(old_cands, cands@, ps, i as int, pos as int);
            }
        }
        i = i + 1;
    }
    cands
}

proof fn lemma_candidates_skip(cs: Seq<ProcessCandidateInfo>, ps: Seq<ProcessInfo>, i: int)
    requires
        0 <= i < ps.len(),
        candidates_of(cs, ps, i),
        !candidate_eligible(ps[i]),
    ensures
        candidates_of(cs, ps, i + 1),
{
    assert(cands_first(cs, ps, i + 1)) by {
        assert forall|j: int| 0 <= j < cs.len() implies #[trigger] first_index(ps, i + 1, info_key(cs[j])) == first_index(ps, i, info_key(cs[j])) by {}
    }
    assert(cands_susp(cs, ps, i + 1)) by {
        assert forall|key: Seq<char>| has_suspendable(ps, i + 1, key) == has_suspendable(ps, i, key) by {
            if has_suspendable(ps, i + 1, key) {
                let k = choose|k: int| 0 <= k < i + 1 && candidate_eligible(ps[k]) && candidate_key(ps[k]) == key && #[trigger] suspendable(ps[k]);
                assert(k < i);
            }
        }
    }
}

proof fn lemma_merge_first(cs: Seq<ProcessCandidateInfo>, ns: Seq<ProcessCandidateInfo>, ps: Seq<ProcessInfo>, i: int)
    requires
        0 <= i < ps.len(),
        cands_first(cs, ps, i),
        ns.len() == cs.len(),
        forall|j: int| 0 <= j < cs.len() ==> (#[trigger] ns[j]).name@ == cs[j].name@ && ns[j].image_path@ == cs[j].image_path@,
    ensures
        cands_first(ns, ps, i + 1),
{
    assert forall|j: int| 0 <= j < ns.len() implies {
        let f = first_index(ps, i + 1, info_key(#[trigger] ns[j]));
        0 <= f && ns[j].name@ == ps[f].name@ && ns[j].image_path@ == ps[f].image_path->Some_0@
    } by {
        assert(info_key(ns[j]) == info_key(cs[j]));
        assert(first_index(ps, i, info_key(cs[j])) >= 0);
    }
}

proof fn lemma_merge_cover(cs: Seq<ProcessCandidateInfo>, ns: Seq<ProcessCandidateInfo>, ps: Seq<ProcessInfo>, i: int, pos: int)
    requires
        0 <= i < ps.len(),
        0 <= pos < cs.len(),
        cands_cover(cs, ps, i),
        info_key(cs[pos]) == candidate_key(ps[i]),
        ns.len() == cs.len(),
        forall|j: int| 0 <= j < cs.len() ==> (#[trigger] ns[j]).image_path@ == cs[j].image_path@,
    ensures
        cands_cover(ns, ps, i + 1),
{
    assert forall|k: int| 0 <= k < i + 1 && candidate_eligible(#[trigger] ps[k]) implies exists|j: int|
        0 <= j < ns.len() && info_key(ns[j]) == candidate_key(ps[k]) by {
        if k < i {
            let j = choose|j: int| 0 <= j < cs.len() && info_key(cs[j]) == candidate_key(ps[k]);
            assert(info_key(ns[j]) == info_key(cs[j]));
        } else {
            assert(info_key(ns[pos]) == info_key(cs[pos]));
        }
    }
}

proof fn lemma_merge_susp(cs: Seq<ProcessCandidateInfo>, ns: Seq<ProcessCandidateInfo>, ps: Seq<ProcessInfo>, i: int, pos: int)
    requires
        0 <= i < ps.len(),
        0 <= pos < cs.len(),
        cands_susp(cs, ps, i),
        strictly_sorted(info_keys(cs)),
        candidate_eligible(ps[i]),
        info_key(cs[pos]) == candidate_key(ps[i]),
        ns.len() == cs.len(),
        forall|j: int| 0 <= j < cs.len() ==> (#[trigger] ns[j]).image_path@ == cs[j].image_path@,
        forall|j: int| 0 <= j < cs.len() && j != pos ==> (#[trigger] ns[j]).has_suspendable_instance == cs[j].has_suspendable_instance,
        ns[pos].has_suspendable_instance == (cs[pos].has_suspendable_instance || suspendable(ps[i])),
    ensures
        cands_susp(ns, ps, i + 1),
{
    assert forall|j: int| 0 <= j < ns.len() implies (#[trigger] ns[j].has_suspendable_instance <==> has_suspendable(ps, i + 1, info_key(ns[j]))) by {
        assert(info_key(ns[j]) == info_key(cs[j]));
        if j != pos {
            assert(info_keys(cs)[j] == info_key(cs[j]));
            assert(info_keys(cs)[pos] == info_key(cs[pos]));
            if j < pos {
                assert(lex_lt(info_keys(cs)[j], info_keys(cs)[pos]));
            } else {
                assert(lex_lt(info_keys(cs)[pos], info_keys(cs)[j]));
            }
            lemma_lex_irreflexive(info_key(cs[j]));
            assert(info_key(cs[j]) != candidate_key(ps[i]));
            if has_suspendable(ps, i + 1, info_key(ns[j])) {
                let k = choose|k: int| 0 <= k < i + 1 && candidate_eligible(ps[k]) && candidate_key(ps[k]) == info_key(ns[j]) && #[trigger] suspendable(ps[k]);
                assert(k < i);
            }
        } else {
            if has_suspendable(ps, i + 1, info_key(ns[j])) {
                let k = choose|k: int| 0 <= k < i + 1 && candidate_eligible(ps[k]) && candidate_key(ps[k]) == info_key(ns[j]) && #[trigger] suspendable(ps[k]);
                if k < i {
                    assert(has_suspendable(ps, i, info_key(cs[j])));
                }
            }
            if suspendable(ps[i]) {
                assert(has_suspendable(ps, i + 1, info_key(ns[j])));
            }
            if cs[pos].has_suspendable_instance {
                let k = choose|k: int| 0 <= k < i && candidate_eligible(ps[k]) && candidate_key(ps[k]) == info_key(cs[j]) && #[trigger] suspendable(ps[k]);
                assert(has_suspendable(ps, i + 1, info_key(ns[j])));
            }
        }
    }
}

proof fn lemma_candidates_merge(
    cs: Seq<ProcessCandidateInfo>,
    ns: Seq<ProcessCandidateInfo>,
    ps: Seq<ProcessInfo>,
    i: int,
    pos: int,
)
    requires
        0 <= i < ps.len(),
        0 <= pos < cs.len(),
        candidates_of(cs, ps, i),
        candidate_eligible(ps[i]),
        info_key(cs[pos]) == candidate_key(ps[i]),
        ns.len() == cs.len(),
        forall|j: int| 0 <= j < cs.len() && j != pos ==> ns[j] == cs[j],
        ns[pos].name@ == cs[pos].name@,
        ns[pos].image_path@ == cs[pos].image_path@,
        ns[pos].has_suspendable_instance == (cs[pos].has_suspendable_instance || suspendable(ps[i])),
    ensures
        candidates_of(ns, ps, i + 1),
{
    assert forall|j: int| 0 <= j < cs.len() implies (#[trigger] ns[j]).name@ == cs[j].name@ && ns[j].image_path@ == cs[j].image_path@ by {}
    assert forall|j: int| 0 <= j < cs.len() && j != pos implies (#[trigger] ns[j]).has_suspendable_instance == cs[j].has_suspendable_instance by {}
    assert(info_keys(ns) =~= info_keys(cs)) by {
        assert forall|j: int| 0 <= j < ns.len() implies info_keys(ns)[j] == info_keys(cs)[j] by {
            assert(info_key(ns[j]) == info_key(cs[j]));
        }
    }
    lemma_merge_first(cs, ns, ps, i);
    lemma_merge_cover(cs, ns, ps, i, pos);
    lemma_merge_susp(cs, ns, ps, i, pos);
}

proof fn lemma_first_index_none(ps: Seq<ProcessInfo>, n: int, k: Seq<char>)
    requires
        0 <= n <= ps.len(),
        forall|m: int| 0 <= m < n ==> !(candidate_eligible(#[trigger] ps[m]) && candidate_key(ps[m]) == k),
    ensures
        first_index(ps, n, k) == -1,
    decreases n,
{
    if n > 0 {
        lemma_first_index_none(ps, n - 1, k);
    }
}

proof fn lemma_insert_first(cs: Seq<ProcessCandidateInfo>, ns: Seq<ProcessCandidateInfo>, ps: Seq<ProcessInfo>, i: int, pos: int)
    requires
        0 <= i < ps.len(),
        0 <= pos <= cs.len(),
        cands_first(cs, ps, i),
        cands_cover(cs, ps, i),
        candidate_eligible(ps[i]),
        forall|j: int| 0 <= j < cs.len() ==> info_key(#[trigger] cs[j]) != candidate_key(ps[i]),
        ns.len() == cs.len() + 1,
        forall|j: int| 0 <= j < pos ==> ns[j] == cs[j],
        forall|j: int| pos < j < ns.len() ==> ns[j] == cs[j - 1],
        ns[pos].name@ == ps[i].name@,
        ns[pos].image_path@ == ps[i].image_path->Some_0@,
    ensures
        cands_first(ns, ps, i + 1),
{
    assert forall|j: int| 0 <= j < ns.len() implies {
        let f = first_index(ps, i + 1, info_key(#[trigger] ns[j]));
        0 <= f && ns[j].name@ == ps[f].name@ && ns[j].image_path@ == ps[f].image_path->Some_0@
    } by {
        if j == pos {
            let k = info_key(ns[j]);
            assert(k == candidate_key(ps[i]));
            assert forall|m: int| 0 <= m < i implies !(candidate_eligible(#[trigger] ps[m]) && candidate_key(ps[m]) == k) by {
                if candidate_eligible(ps[m]) && candidate_key(ps[m]) == k {
                    let jj = choose|jj: int| 0 <= jj < cs.len() && info_key(cs[jj]) == candidate_key(ps[m]);
                    assert(info_key(cs[jj]) != candidate_key(ps[i]));
                }
            }
            lemma_first_index_none(ps, i, k);
            assert(first_index(ps, i + 1, k) == i);
        } else {
            let oj = if j < pos { j } else { j - 1 };
            assert(ns[j] == cs[oj]);
            assert(first_index(ps, i, info_key(cs[oj])) >= 0);
        }
    }
}

proof fn lemma_insert_cover(cs: Seq<ProcessCandidateInfo>, ns: Seq<ProcessCandidateInfo>, ps: Seq<ProcessInfo>, i: int, pos: int)
    requires
        0 <= i < ps.len(),
        0 <= pos <= cs.len(),
        cands_cover(cs, ps, i),
        ns.len() == cs.len() + 1,
        forall|j: int| 0 <= j < pos ==> ns[j] == cs[j],
        forall|j: int| pos < j < ns.len() ==> ns[j] == cs[j - 1],
        ns[pos].image_path@ == ps[i].image_path->Some_0@,
    ensures
        cands_cover(ns, ps, i + 1),
{
    assert forall|k: int| 0 <= k < i + 1 && candidate_eligible(#[trigger] ps[k]) implies exists|j: int|
        0 <= j < ns.len() && info_key(ns[j]) == candidate_key(ps[k]) by {
        if k < i {
            let j = choose|j: int| 0 <= j < cs.len() && info_key(cs[j]) == candidate_key(ps[k]);
            let nj = if j < pos { j } else { j + 1 };
            assert(ns[nj] == cs[j]);
        } else {
            assert(info_key(ns[pos]) == candidate_key(ps[k]));
        }
    }
}

proof fn lemma_insert_susp(cs: Seq<ProcessCandidateInfo>, ns: Seq<ProcessCandidateInfo>, ps: Seq<ProcessInfo>, i: int, pos: int)
    requires
        0 <= i < ps.len(),
        0 <= pos <= cs.len(),
        cands_susp(cs, ps, i),
        cands_cover(cs, ps, i),
        candidate_eligible(ps[i]),
        forall|j: int| 0 <= j < cs.len() ==> info_key(#[trigger] cs[j]) != candidate_key(ps[i]),
        ns.len() == cs.len() + 1,
        forall|j: int| 0 <= j < pos ==> ns[j] == cs[j],
        forall|j: int| pos < j < ns.len() ==> ns[j] == cs[j - 1],
        ns[pos].image_path@ == ps[i].image_path->Some_0@,
        ns[pos].has_suspendable_instance == suspendable(ps[i]),
    ensures
        cands_susp(ns, ps, i + 1),
{
    assert forall|j: int| 0 <= j < ns.len() implies (#[trigger] ns[j].has_suspendable_instance <==> has_suspendable(ps, i + 1, info_key(ns[j]))) by {
        if j == pos {
            assert(candidate_key(ps[i]) == info_key(ns[j]));
            if has_suspendable(ps, i + 1, info_key(ns[j])) {
                let k = choose|k: int| 0 <= k < i + 1 && candidate_eligible(ps[k]) && candidate_key(ps[k]) == info_key(ns[j]) && #[trigger] suspendable(ps[k]);
                if k < i {
                    let jj = choose|jj: int| 0 <= jj < cs.len() && info_key(cs[jj]) == candidate_key(ps[k]);
                    assert(info_key(cs[jj]) != candidate_key(ps[i]));
                }
            }
            if suspendable(ps[i]) {
                assert(has_suspendable(ps, i + 1, info_key(ns[j])));
            }
        } else {
            let oj = if j < pos { j } else { j - 1 };
            assert(ns[j] == cs[oj]);
            assert(info_key(cs[oj]) != candidate_key(ps[i]));
            if has_suspendable(ps, i + 1, info_key(ns[j])) {
                let k = choose|k: int| 0 <= k < i + 1 && candidate_eligible(ps[k]) && candidate_key(ps[k]) == info_key(ns[j]) && #[trigger] suspendable(ps[k]);
                assert(k < i);
                assert(has_suspendable(ps, i, info_key(cs[oj])));
            }
            if cs[oj].has_suspendable_instance {
                let k = choose|k: int| 0 <= k < i && candidate_eligible(ps[k]) && candidate_key(ps[k]) == info_key(cs[oj]) && #[trigger] suspendable(ps[k]);
                assert(has_suspendable(ps, i + 1, info_key(ns[j])));
            }
        }
    }
}

proof fn lemma_candidates_insert(
    cs: Seq<ProcessCandidateInfo>,
    ns: Seq<ProcessCandidateInfo>,
    ps: Seq<ProcessInfo>,
    i: int,
    pos: int,
)
    requires
        0 <= i < ps.len(),
        0 <= pos <= cs.len(),
        candidates_of(cs, ps, i),
        candidate_eligible(ps[i]),
        forall|j: int| 0 <= j < cs.len() ==> info_key(#[trigger] cs[j]) != candidate_key(ps[i]),
        strictly_sorted(info_keys(ns)),
        ns.len() == cs.len() + 1,
        forall|j: int| 0 <= j < pos ==> ns[j] == cs[j],
        forall|j: int| pos < j < ns.len() ==> ns[j] == cs[j - 1],
        ns[pos].name@ == ps[i].name@,
        ns[pos].image_path@ == ps[i].image_path->Some_0@,
        ns[pos].has_suspendable_instance == suspendable(ps[i]),
    ensures
        candidates_of(ns, ps, i + 1),
{
    lemma_insert_first(cs, ns, ps, i, pos);
    lemma_insert_cover(cs, ns, ps, i, pos);
    lemma_insert_susp(cs, ns, ps, i, pos);
}

/// The app-name form of a name: trimmed and ASCII-lower-cased.
pub open spec fn app_name(name: Seq<char>) -> Seq<char> {
    lower_seq(trim_seq(name))
}

/// The distinct non-empty app names of `names`, sorted.
pub fn unique_app_names(names: &Vec<&str>) -> (r: Vec<String>)
    ensures
        strictly_sorted(string_views(r@)),
        forall|x: Seq<char>| string_views(r@).contains(x) <==> (x.len() > 0 && exists|i: int|
            0 <= i < names@.len() && app_name(#[trigger] names@[i]@) == x),
{
    let mut out: Vec<String> = Vec::new();
    let mut i: usize = 0;
    while i < names.len()
        invariant
            i <= names@.len(),
            strictly_sorted(string_views(out@)),
            forall|x: Seq<char>| string_views(out@).contains(x) <==> (x.len() > 0 && exists|k: int|
                0 <= k < i && app_name(#[trigger] names@[k]@) == x),
        decreases names@.len() - i,
    {
        let name = to_ascii_lowercase(trim(names[i]));
        let ghost x = name@;
        assert(x == app_name(names@[i as int]@));
        let ghost before = string_views(out@);
        if name.unicode_len() == 0 {
            assert forall|y: Seq<char>| string_views(out@).contains(y) <==> (y.len() > 0 && exists|k: int|
                0 <= k < i + 1 && app_name(#[trigger] names@[k]@) == y) by {
                if y.len() > 0 && exists|k: int| 0 <= k < i + 1 && app_name(#[trigger] names@[k]@) == y {
                    let k = choose|k: int| 0 <= k < i + 1 && app_name(#[trigger] names@[k]@) == y;
                    assert(k != i);
                }
            }
        } else {
            let (pos, found) = sorted_position(&out, name.as_str());
            if found {
                assert(before[pos as int] == x);
                assert forall|y: Seq<char>| string_views(out@).contains(y) <==> (y.len() > 0 && exists|k: int|
                    0 <= k < i + 1 && app_name(#[trigger] names@[k]@) == y) by {
                    if y.len() > 0 && exists|k: int| 0 <= k < i + 1 && app_name(#[trigger] names@[k]@) == y {
                        let k = choose|k: int| 0 <= k < i + 1 && app_name(#[trigger] names@[k]@) == y;
                        if k == i {
                            assert(before.contains(y));
                        }
                    }
                }
            } else {
                proof {
                    assert forall|j: int| 0 <= j < pos implies lex_lt(#[trigger] before[j], x) by {
                        assert(before[j] == out@[j]@);
                    }
                    assert forall|j: int| pos <= j < before.len() implies lex_lt(x, #[trigger] before[j]) by {
                        assert(before[j] == out@[j]@);
                    }
                    lemma_insert_sorted(before, pos as int, x);
                }
                out.insert(pos, name);
                proof {
                    let after = string_views(out@);
                    assert(after =~= before.insert(pos as int, x));
                    assert forall|y: Seq<char>| after.contains(y) <==> (y.len() > 0 && exists|k: int|
                        0 <= k < i + 1 && app_name(#[trigger] names@[k]@) == y) by {
                        if after.contains(y) {
                            let m = choose|m: int| 0 <= m < after.len() && after[m] == y;
                            if m < pos {
                                assert(before[m] == y);
                                assert(before.contains(y));
                            } else if m > pos {
                                assert(before[m - 1] == y);
                                assert(before.contains(y));
                            } else {
                                assert(app_name(names@[i as int]@) == y);
                            }
                        }
                        if y.len() > 0 && exists|k: int| 0 <= k < i + 1 && app_name(#[trigger] names@[k]@) == y {
                            let k = choose|k: int| 0 <= k < i + 1 && app_name(#[trigger] names@[k]@) == y;
                            if k < i {
                                assert(before.contains(y));
                                let m = choose|m: int| 0 <= m < before.len() && before[m] == y;
                                if m < pos {
                                    assert(after[m] == y);
                                } else {
                                    assert(after[m + 1] == y);
                                }
                            } else {
                                assert(after[pos as int] == y);
                            }
                        }
                    }
                }
            }
        }
        i = i + 1;
    }
    out
}

/// Why a process picked by the user cannot be acted on.
#[derive(Debug, Clone, PartialEq, Eq)]
pub enum ProcessActionTargetError {
    ProtectedProcess,
    CurrentSessionUnavailable,
    DifferentSession,
    ProcessChanged,
    ProcessUnavailable(u32),
    IdentityUnavailable,
}

impl ProcessActionTargetError {
    /// The message shown to the user.
    pub fn message(&self) -> (r: String)
        ensures
            r@ == match self {
                ProcessActionTargetError::ProtectedProcess => "Winderust cannot modify this process."@,
                ProcessActionTargetError::CurrentSessionUnavailable => "Could not determine the current Windows session."@,
                ProcessActionTargetError::DifferentSession => "Processes in another Windows session cannot be modified."@,
                ProcessActionTargetError::ProcessChanged => "The selected process instance has changed."@,
                ProcessActionTargetError::ProcessUnavailable(e) => "The selected process is no longer available (Win32 error "@
                    + decimal(*e as nat) + ")."@,
                ProcessActionTargetError::IdentityUnavailable => "Could not identify the selected process instance."@,
            },
    {
        match self {
            ProcessActionTargetError::ProtectedProcess => String::from_str("Winderust cannot modify this process."),
            ProcessActionTargetError::CurrentSessionUnavailable => String::from_str("Could not determine the current Windows session."),
            ProcessActionTargetError::DifferentSession => String::from_str("Processes in another Windows session cannot be modified."),
            ProcessActionTargetError::ProcessChanged => String::from_str("The selected process instance has changed."),
            ProcessActionTargetError::ProcessUnavailable(e) => {
                let mut s = String::from_str("The selected process is no longer available (Win32 error ");
                s.append(decimal_string(*e as u64).as_str());
                s.append(").");
                s
            },
            ProcessActionTargetError::IdentityUnavailable => String::from_str("Could not identify the selected process instance."),
        }
    }
}

/// A process picked by the user, pinned to one process instance.
#[derive(Debug, Clone, PartialEq, Eq)]
pub struct ProcessActionTarget {
    pub id: u32,
    pub name: String,
    pub executable_path: String,
    pub creation_time: u64,
    pub session_id: Option<u32>,
    pub is_service_account: Option<bool>,
}

/// What the system reports of a process opened to be acted on.
pub struct OpenedProcess {
    pub is_critical: Option<bool>,
    pub executable_path: Option<String>,
    pub creation_time: Option<u64>,
    pub is_service_account: Option<bool>,
}

/// The checks made before a process picked by the user is opened: not the
/// idle process or this one; in this session unless other sessions are
/// allowed; and an absolute expected path (`expected_path_is_absolute`, as
/// the platform's path rules judge it).
pub fn process_action_target_precheck(
    process_id: u32,
    current_process_id: u32,
    allow_cross_session: bool,
    session_id: Option<u32>,
    current_session_id: Option<u32>,
    expected_path_is_absolute: bool,
) -> (r: Result<(), ProcessActionTargetError>)
    ensures
        r == if process_id == 0 || process_id == current_process_id {
            Err(ProcessActionTargetError::ProtectedProcess)
        } else if !allow_cross_session && current_session_id is None {
            Err(ProcessActionTargetError::CurrentSessionUnavailable)
        } else if !allow_cross_session && session_id != current_session_id {
            Err(ProcessActionTargetError::DifferentSession)
        } else if !expected_path_is_absolute {
            Err(ProcessActionTargetError::IdentityUnavailable)
        } else {
            Ok(())
        },
{
    if process_id == 0 || process_id == current_process_id {
        return Err(ProcessActionTargetError::ProtectedProcess);
    }
    if !allow_cross_session {
        match current_session_id {
            None => return Err(ProcessActionTargetError::CurrentSessionUnavailable),
            Some(current) => {
                let same = match session_id {
                    Some(s) => s == current,
                    None => false,
                };
                if !same {
                    return Err(ProcessActionTargetError::DifferentSession);
                }
            },
        }
    }
    if !expected_path_is_absolute {
        return Err(ProcessActionTargetError::IdentityUnavailable);
    }
    Ok(())
}

/// Pins a process picked by the user to its instance, from what opening it
/// reported (`opened`: the facts, or the Win32 error of opening it): a
/// process that may be critical is protected; it must report its path, run
/// the expected executable, and report a file name and a start time. The
/// target's name is the file name in lower case.
pub fn capture_process_action_target(
    process_id: u32,
    expected_executable_path: &str,
    session_id: Option<u32>,
    opened: Result<OpenedProcess, u32>,
    canonical: &CanonicalPaths,
) -> (r: Result<ProcessActionTarget, ProcessActionTargetError>)
    ensures
        match opened {
            Err(code) => r == Err::<ProcessActionTarget, ProcessActionTargetError>(
                ProcessActionTargetError::ProcessUnavailable(code),
            ),
            Ok(o) => if o.is_critical != Some(false) {
                r == Err::<ProcessActionTarget, ProcessActionTargetError>(ProcessActionTargetError::ProtectedProcess)
            } else {
                match o.executable_path {
                    None => r == Err::<ProcessActionTarget, ProcessActionTargetError>(
                        ProcessActionTargetError::IdentityUnavailable,
                    ),
                    Some(p) => if !same_executable_path_spec(p@, expected_executable_path@, canonical.entries@) {
                        r == Err::<ProcessActionTarget, ProcessActionTargetError>(
                            ProcessActionTargetError::ProcessChanged,
                        )
                    } else {
                        match (file_name_of(p@), o.creation_time) {
                            (Some(n), Some(t)) => r matches Ok(target) && target.id == process_id && target.name@
                                == lower_seq(n) && target.executable_path@ == p@ && target.creation_time == t
                                && target.session_id == session_id && target.is_service_account
                                == o.is_service_account,
                            _ => r == Err::<ProcessActionTarget, ProcessActionTargetError>(
                                ProcessActionTargetError::IdentityUnavailable,
                            ),
                        }
                    },
                }
            },
        },
{
    let o = match opened {
        Err(code) => return Err(ProcessActionTargetError::ProcessUnavailable(code)),
        Ok(o) => o,
    };
    let not_critical = match o.is_critical {
        Some(c) => !c,
        None => false,
    };
    if !not_critical {
        return Err(ProcessActionTargetError::ProtectedProcess);
    }
    let path = match o.executable_path {
        None => return Err(ProcessActionTargetError::IdentityUnavailable),
        Some(p) => p,
    };
    if !same_executable_path(path.as_str(), expected_executable_path, canonical) {
        return Err(ProcessActionTargetError::ProcessChanged);
    }
    let name = match path_file_name(path.as_str()) {
        None => return Err(ProcessActionTargetError::IdentityUnavailable),
        Some(n) => to_ascii_lowercase(n),
    };
    let creation_time = match o.creation_time {
        None => return Err(ProcessActionTargetError::IdentityUnavailable),
        Some(t) => t,
    };
    Ok(
        ProcessActionTarget {
            id: process_id,
            name,
            executable_path: path,
            creation_time,
            session_id,
            is_service_account: o.is_service_account,
        },
    )
}

/// The key under which failures of a process identity are counted.
pub fn process_failure_key(process_identity: &str) -> (r: String)
    ensures
        r@ == path_key(process_identity@),
{
    executable_path_key(process_identity)
}

/// Whether a listed name is the pseudo-process `[System Process]` (in any
/// case, around white space).
pub fn is_system_process_name(name: &str) -> (r: bool)
    ensures
        r == crate::text::same_name_seq(name@, "[system process]"@),
{
    crate::text::same_name(name, "[system process]")
}

/// `"1 process"` or `"<count> processes"`.
pub open spec fn count_label(count: nat) -> Seq<char> {
    if count == 1 {
        "1 process"@
    } else {
        decimal(count) + " processes"@
    }
}

/// A human-readable process count.
pub fn process_count_label(count: usize) -> (r: String)
    ensures
        r@ == count_label(count as nat),
{
    if count == 1 {
        String::from_str("1 process")
    } else {
        let mut s = decimal_string(count as u64);
        s.append(" processes");
        s
    }
}

} // verus!
