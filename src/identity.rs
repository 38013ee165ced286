use vstd::prelude::*;
use vstd::string::StrSliceExecFns;

verus! {

/// The name that the dispatcher itself is installed under. Invoked under this
/// name it does not dispatch.
pub const DISPATCHER_NAME: &'static str = "rokit";

/// How the host platform writes executable paths.
pub struct Platform {
    /// The suffix that marks a file as executable (".exe"), or empty.
    pub exe_suffix: String,
    /// Whether paths follow Windows' conventions: `\` separates components
    /// as `/` does, and a drive prefix (`C:`) that starts a path is no part of
    /// any component.
    pub windows_paths: bool,
}

pub open spec fn is_separator(c: char, windows: bool) -> bool {
    c == '/' || (windows && c == '\\')
}

pub open spec fn is_ascii_letter(c: char) -> bool {
    ('a' <= c && c <= 'z') || ('A' <= c && c <= 'Z')
}

/// The length of the drive prefix that starts `s`: 2 for `X:` on Windows,
/// else 0.
pub open spec fn drive_prefix_len(s: Seq<char>, windows: bool) -> int {
    if windows && s.len() >= 2 && is_ascii_letter(s[0]) && s[1] == ':' {
        2
    } else {
        0
    }
}

/// Where the component that ends at `i` starts: just past the last separator
/// in `s[lo..i]`, or `lo` where there is none.
pub open spec fn part_start(s: Seq<char>, lo: int, i: int, windows: bool) -> int
    decreases i - lo,
{
    if i <= lo {
        lo
    } else if is_separator(s[i - 1], windows) {
        i
    } else {
        part_start(s, lo, i - 1, windows)
    }
}

/// The bounds of the last component of `s[lo..hi]` that is neither empty nor
/// `.`, or none where there is no such component.
pub open spec fn last_part(s: Seq<char>, lo: int, hi: int, windows: bool) -> Option<(int, int)>
    decreases hi - lo,
{
    if hi <= lo {
        None
    } else if is_separator(s[hi - 1], windows) {
        last_part(s, lo, hi - 1, windows)
    } else if s.subrange(part_start(s, lo, hi, windows), hi) == seq!['.'] {
        last_part(s, lo, hi - 1, windows)
    } else {
        Some((part_start(s, lo, hi, windows), hi))
    }
}

/// The last component of the path `s` past its drive prefix, skipping empty
/// and `.` components: what names the file, unless it is `..`.
pub open spec fn final_component(s: Seq<char>, windows: bool) -> Option<Seq<char>> {
    match last_part(s, drive_prefix_len(s, windows), s.len() as int, windows) {
        Some((a, b)) => Some(s.subrange(a, b)),
        None => None,
    }
}

/// A component that names a file: not empty, `.` or `..`.
pub open spec fn names_file(c: Seq<char>) -> bool {
    c.len() > 0 && c != seq!['.'] && c != seq!['.', '.']
}

pub open spec fn ascii_lower_code(c: char) -> u32 {
    if 'A' <= c && c <= 'Z' {
        (c as u32 + 32) as u32
    } else {
        c as u32
    }
}

pub open spec fn ascii_upper_code(c: char) -> u32 {
    if 'a' <= c && c <= 'z' {
        (c as u32 - 32) as u32
    } else {
        c as u32
    }
}

/// The code of `c` in the ASCII lower case (`upper` false) or upper case.
pub open spec fn cased_code(c: char, upper: bool) -> u32 {
    if upper {
        ascii_upper_code(c)
    } else {
        ascii_lower_code(c)
    }
}

/// `name` ends with `suffix` written in one ASCII case.
pub open spec fn ends_with_cased(name: Seq<char>, suffix: Seq<char>, upper: bool) -> bool {
    &&& suffix.len() <= name.len()
    &&& forall|i: int|
        0 <= i < suffix.len() ==> #[trigger] name[name.len() - suffix.len() + i] as u32
            == cased_code(suffix[i], upper)
}

/// `name` without the executable suffix: its lower-case form is tried first,
/// then its upper-case form; where neither ends `name`, it stays as it is.
pub open spec fn strip_exe_suffix(name: Seq<char>, suffix: Seq<char>) -> Seq<char> {
    if suffix.len() > 0 && ends_with_cased(name, suffix, false) {
        name.subrange(0, name.len() - suffix.len())
    } else if suffix.len() > 0 && ends_with_cased(name, suffix, true) {
        name.subrange(0, name.len() - suffix.len())
    } else {
        name
    }
}

/// The logical name of an invocation `arg0`, or none where its last
/// component names no file.

/// The logical name of an invocation `arg0`, or none where no component of
/// it names a file.
pub open spec fn logical_name(arg0: Seq<char>, suffix: Seq<char>, windows: bool) -> Option<
    Seq<char>,
> {
    match final_component(arg0, windows) {
        Some(c) => if c == seq!['.', '.'] {
            None
        } else {
            Some(strip_exe_suffix(c, suffix))
        },
        None => None,
    }
}

proof fn lemma_part_start_at(s: Seq<char>, lo: int, k: int, i: int, windows: bool)
    requires
        0 <= lo <= k <= i <= s.len(),
        k == lo || is_separator(s[k - 1], windows),
        forall|j: int| k <= j < i ==> !is_separator(#[trigger] s[j], windows),
    ensures
        part_start(s, lo, i, windows) == k,
    decreases i - k,
{
    if i > k {
        lemma_part_start_at(s, lo, k, i - 1, windows);
    }
}

proof fn lemma_part_start_bounds(s: Seq<char>, lo: int, i: int, windows: bool)
    requires
        0 <= lo <= i <= s.len(),
    ensures
        lo <= part_start(s, lo, i, windows) <= i,
        forall|j: int|
            part_start(s, lo, i, windows) <= j < i ==> !is_separator(#[trigger] s[j], windows),
    decreases i - lo,
{
    if i > lo && !is_separator(s[i - 1], windows) {
        lemma_part_start_bounds(s, lo, i - 1, windows);
    }
}

proof fn lemma_last_part_bounds(s: Seq<char>, lo: int, hi: int, windows: bool)
    requires
        0 <= lo <= hi <= s.len(),
    ensures
        last_part(s, lo, hi, windows) matches Some((a, b)) ==> {
            &&& lo <= a < b <= hi
            &&& forall|j: int| a <= j < b ==> !is_separator(#[trigger] s[j], windows)
        },
    decreases hi - lo,
{
    if hi > lo {
        lemma_part_start_bounds(s, lo, hi, windows);
        if is_separator(s[hi - 1], windows) || s.subrange(part_start(s, lo, hi, windows), hi)
            == seq!['.'] {
            lemma_last_part_bounds(s, lo, hi - 1, windows);
        } else {
            lemma_part_start_bounds(s, lo, hi - 1, windows);
            assert(part_start(s, lo, hi, windows) == part_start(s, lo, hi - 1, windows));
        }
    }
}

/// Of an invocation with directory components, only the last component
/// counts: behind any directory `dir` and a separator, a file `name` that
/// holds no separator resolves to `name` without the executable suffix.
pub proof fn lemma_directory_stripped(
    dir: Seq<char>,
    sep: char,
    name: Seq<char>,
    suffix: Seq<char>,
    windows: bool,
)
    requires
        is_separator(sep, windows),
        forall|j: int| 0 <= j < name.len() ==> !is_separator(#[trigger] name[j], windows),
        names_file(name),
    ensures
        final_component(dir + seq![sep] + name, windows) == Some(name),
        logical_name(dir + seq![sep] + name, suffix, windows) == Some(
            strip_exe_suffix(name, suffix),
        ),
{
    let s = dir + seq![sep] + name;
    let k = dir.len() as int + 1;
    let lo = drive_prefix_len(s, windows);
    assert(s[k - 1] == sep);
    assert(lo <= k);
    assert forall|j: int| k <= j < s.len() implies !is_separator(#[trigger] s[j], windows) by {
        assert(s[j] == name[j - k]);
    }
    lemma_part_start_at(s, lo, k, s.len() as int, windows);
    assert(s.subrange(k, s.len() as int) =~= name);
    assert(s[s.len() - 1] == name[name.len() - 1]);
}

/// An invocation whose file name ends in the executable suffix, written
/// wholly in lower case or wholly in upper case, resolves to that file name
/// with the suffix removed entirely.
pub proof fn lemma_suffix_removed(arg0: Seq<char>, suffix: Seq<char>, upper: bool, windows: bool)
    requires
        final_component(arg0, windows) matches Some(c) && c != seq!['.', '.'] && ends_with_cased(
            c,
            suffix,
            upper,
        ),
        suffix.len() > 0,
    ensures
        logical_name(arg0, suffix, windows) == Some(
            final_component(arg0, windows)->0.subrange(
                0,
                final_component(arg0, windows)->0.len() - suffix.len(),
            ),
        ),
{
}

/// A logical name holds no separator.
pub proof fn lemma_logical_name_has_no_separator(arg0: Seq<char>, suffix: Seq<char>, windows: bool)
    requires
        logical_name(arg0, suffix, windows) is Some,
    ensures
        forall|j: int|
            0 <= j < logical_name(arg0, suffix, windows)->0.len() ==> !is_separator(
                #[trigger] logical_name(arg0, suffix, windows)->0[j],
                windows,
            ),
{
    let n = logical_name(arg0, suffix, windows)->0;
    let c = final_component(arg0, windows)->0;
    let lo = drive_prefix_len(arg0, windows);
    lemma_last_part_bounds(arg0, lo, arg0.len() as int, windows);
    let bounds = last_part(arg0, lo, arg0.len() as int, windows)->0;
    let a = bounds.0;
    assert forall|j: int| 0 <= j < n.len() implies !is_separator(#[trigger] n[j], windows) by {
        assert(n[j] == c[j]);
        assert(c[j] == arg0[a + j]);
    }
}

fn is_separator_char(c: char, windows: bool) -> (r: bool)
    ensures
        r == is_separator(c, windows),
{
    c == '/' || (windows && c == '\\')
}

fn drive_prefix_len_of(s: &str, windows: bool) -> (r: usize)
    ensures
        r == drive_prefix_len(s@, windows),
{
    if windows && s.unicode_len() >= 2 {
        let c = s.get_char(0);
        if (('a' <= c && c <= 'z') || ('A' <= c && c <= 'Z')) && s.get_char(1) == ':' {
            return 2;
        }
    }
    0
}

fn part_start_of(s: &str, lo: usize, hi: usize, windows: bool) -> (r: usize)
    requires
        lo <= hi <= s@.len(),
    ensures
        r == part_start(s@, lo as int, hi as int, windows),
{
    let mut i: usize = hi;
    let mut found = false;
    while i > lo && !found
        invariant
            lo <= i <= hi <= s@.len(),
            part_start(s@, lo as int, hi as int, windows) == part_start(
                s@,
                lo as int,
                i as int,
                windows,
            ),
            found ==> i > lo && is_separator(s@[i - 1], windows),
        decreases i, if found {
            0int
        } else {
            1int
        },
    {
        if is_separator_char(s.get_char(i - 1), windows) {
            found = true;
        } else {
            i = i - 1;
        }
    }
    i
}

fn final_component_of(s: &str, windows: bool) -> (r: Option<String>)
    ensures
        match r {
            Some(c) => final_component(s@, windows) == Some(c@),
            None => final_component(s@, windows) is None,
        },
{
    let lo = drive_prefix_len_of(s, windows);
    let n = s.unicode_len();
    let mut hi: usize = n;
    while hi > lo
        invariant
            lo <= n == s@.len(),
            lo == drive_prefix_len(s@, windows),
            hi <= n,
            last_part(s@, lo as int, n as int, windows) == last_part(
                s@,
                lo as int,
                hi as int,
                windows,
            ),
        decreases hi,
    {
        if is_separator_char(s.get_char(hi - 1), windows) {
            hi = hi - 1;
        } else {
            let st = part_start_of(s, lo, hi, windows);
            proof {
                lemma_part_start_bounds(s@, lo as int, hi as int, windows);
            }
            if hi - st == 1 && s.get_char(st) == '.' {
                assert(s@.subrange(st as int, hi as int) =~= seq!['.']);
                hi = hi - 1;
            } else {
                let ghost part = s@.subrange(st as int, hi as int);
                assert(part != seq!['.']) by {
                    let dot: Seq<char> = seq!['.'];
                    assert(dot.len() == 1 && dot[0] == '.');
                    if part == dot {
                        assert(part.len() == hi - st);
                        assert(part[0] == s@[st as int]);
                    }
                }
                return Some(s.substring_char(st, hi).to_owned());
            }
        }
    }
    None
}

fn cased_code_of(c: char, upper: bool) -> (r: u32)
    ensures
        r == cased_code(c, upper),
{
    if upper {
        if 'a' <= c && c <= 'z' {
            c as u32 - 32
        } else {
            c as u32
        }
    } else {
        if 'A' <= c && c <= 'Z' {
            c as u32 + 32
        } else {
            c as u32
        }
    }
}

fn ends_with_cased_exec(name: &str, suffix: &str, upper: bool) -> (r: bool)
    ensures
        r == ends_with_cased(name@, suffix@, upper),
{
    let n = name.unicode_len();
    let k = suffix.unicode_len();
    if k > n {
        return false;
    }
    let mut j: usize = 0;
    while j < k
        invariant
            j <= k <= n,
            n == name@.len(),
            k == suffix@.len(),
            forall|i: int|
                0 <= i < j ==> #[trigger] name@[n - k + i] as u32 == cased_code(suffix@[i], upper),
        decreases k - j,
    {
        if name.get_char(n - k + j) as u32 != cased_code_of(suffix.get_char(j), upper) {
            return false;
        }
        j = j + 1;
    }
    true
}

/// Strips the executable suffix from `name`, as `strip_exe_suffix` states.
pub fn strip_suffix_any_case(name: &str, suffix: &str) -> (r: String)
    ensures
        r@ == strip_exe_suffix(name@, suffix@),
{
    let n = name.unicode_len();
    let k = suffix.unicode_len();
    if k > 0 && (ends_with_cased_exec(name, suffix, false) || ends_with_cased_exec(
        name,
        suffix,
        true,
    )) {
        name.substring_char(0, n - k).to_owned()
    } else {
        name.to_owned()
    }
}

/// The identity that the process was invoked under.
#[derive(Debug, Clone)]
pub struct Runner {
    exe_name: String,
}

impl Runner {
    pub closed spec fn name(&self) -> Seq<char> {
        self.exe_name@
    }

    /// The runner for a process invoked as `arg0`: its last path component,
    /// without the platform's executable suffix. None where that component
    /// names no file, so that no identity can be had.

    /// The runner for a process invoked as `arg0`: the component of it that
    /// names the file, without the platform's executable suffix. None where
    /// no component names a file, so that no identity can be had.
    pub fn new(arg0: &str, platform: &Platform) -> (r: Option<Runner>)
        ensures
            match r {
                Some(runner) => logical_name(arg0@, platform.exe_suffix@, platform.windows_paths)
                    == Some(runner.name()),
                None => logical_name(arg0@, platform.exe_suffix@, platform.windows_paths) is None,
            },
    {
        let file = match final_component_of(arg0, platform.windows_paths) {
            Some(file) => file,
            None => return None,
        };
        if is_parent_dir(file.as_str()) {
            return None;
        }
        Some(Runner { exe_name: strip_suffix_any_case(file.as_str(), platform.exe_suffix.as_str()) })
    }

    pub fn should_run(&self) -> (r: bool)
        ensures
            r == (self.name() != DISPATCHER_NAME@),
    {
        let own = String::from_str(DISPATCHER_NAME);
        !(self.exe_name == own)
    }

    /// The logical name that the process was invoked under.
    pub fn exe_name(&self) -> (r: &str)
        ensures
            r@ == self.name(),
    {
        self.exe_name.as_str()
    }
}

/// Whether `s` is `..`, the parent directory.
fn is_parent_dir(s: &str) -> (r: bool)
    ensures
        r == (s@ == seq!['.', '.']),
{
    let r = s.unicode_len() == 2 && s.get_char(0) == '.' && s.get_char(1) == '.';
    proof {
        if r {
            assert(s@ =~= seq!['.', '.']);
        }
        if s@ == seq!['.', '.'] {
            assert(s@[0] == '.' && s@[1] == '.');
        }
    }
    r
}

} // verus!
