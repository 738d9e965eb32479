//! Locating the package manager and the language interpreter across the two
//! deployment modes.
//!
//! All probing (environment variables, file existence, `canonicalize`, the
//! search-path lookup, running the package manager) happens in the embedding
//! application; the decision rules here say exactly which path wins for
//! every probe outcome.

use vstd::prelude::*;
use vstd::string::*;

use crate::Mode;
use crate::chars::push_char;
use crate::codec::is_ws;

verus! {

/// `dir` and `rel` joined with a single separator.
pub open spec fn path_join(dir: Seq<char>, rel: Seq<char>) -> Seq<char> {
    dir + seq!['/'] + rel
}

pub fn join_path(dir: &str, rel: &str) -> (r: String)
    ensures
        r@ == path_join(dir@, rel@),
{
    let mut r = String::new();
    r.append(dir);
    push_char(&mut r, '/');
    r.append(rel);
    proof {
        assert(r@ =~= path_join(dir@, rel@));
    }
    r
}

/// What the application found out before resolving the package manager.
pub struct PmProbe {
    /// The value of the override environment variable, if set.
    pub env_override: Option<String>,
    /// Whether the bundled runtime's Unix-layout executable exists.
    pub bundled_unix_present: bool,
    /// Whether the bundled runtime's Windows-layout executable exists.
    pub bundled_windows_present: bool,
}

/// Resolves paths for the current deployment mode.
pub struct RuntimeLocator {
    pub mode: Mode,
}

impl RuntimeLocator {
    pub fn new(mode: Mode) -> (r: RuntimeLocator)
        ensures
            r.mode == mode,
    {
        RuntimeLocator { mode }
    }

    /// The resolution order for the package manager: the environment
    /// override wins; otherwise the bundled runtime next to the executable,
    /// Unix layout before Windows layout; otherwise the bare command name,
    /// left to the system search path. The search path is never consulted
    /// while a bundled runtime is present.
    pub fn resolve_package_manager(&self, exe_dir: &str, probe: PmProbe) -> (r: String)
        ensures
            probe.env_override matches Some(p) ==> r@ == p@,
            probe.env_override is None && probe.bundled_unix_present ==> r@ == path_join(
                exe_dir@,
                "resources/python-env/bin/uv"@,
            ),
            probe.env_override is None && !probe.bundled_unix_present
                && probe.bundled_windows_present ==> r@ == path_join(
                exe_dir@,
                "resources/python-env/Scripts/uv.exe"@,
            ),
            probe.env_override is None && !probe.bundled_unix_present
                && !probe.bundled_windows_present ==> r@ == "uv"@,
    {
        match probe.env_override {
            Some(p) => p,
            None => {
                if probe.bundled_unix_present {
                    join_path(exe_dir, "resources/python-env/bin/uv")
                } else if probe.bundled_windows_present {
                    join_path(exe_dir, "resources/python-env/Scripts/uv.exe")
                } else {
                    let r = String::new();
                    r.concat("uv")
                }
            },
        }
    }

    /// Absolute-path normalization is best effort: a successful
    /// `canonicalize` wins, then a search-path hit, and failing both the
    /// chosen path is used as-is.
    pub fn normalize_resolved(
        &self,
        chosen: String,
        canonical: Option<String>,
        search_hit: Option<String>,
    ) -> (r: String)
        ensures
            canonical matches Some(c) ==> r@ == c@,
            canonical is None ==> (search_hit matches Some(h) ==> r@ == h@),
            canonical is None && search_hit is None ==> r@ == chosen@,
    {
        match canonical {
            Some(c) => c,
            None => match search_hit {
                Some(h) => h,
                None => chosen,
            },
        }
    }

    /// The bundled interpreter next to the executable, if its file exists;
    /// `None` sends the caller to the package manager's own interpreter
    /// lookup.
    pub fn bundled_interpreter(
        &self,
        exe_dir: &str,
        unix_present: bool,
        windows_present: bool,
    ) -> (r: Option<String>)
        ensures
            unix_present ==> (r matches Some(p) && p@ == path_join(
                exe_dir@,
                "resources/python-env/bin/python"@,
            )),
            !unix_present && windows_present ==> (r matches Some(p) && p@ == path_join(
                exe_dir@,
                "resources/python-env/Scripts/python.exe"@,
            )),
            !unix_present && !windows_present ==> r is None,
    {
        if unix_present {
            Some(join_path(exe_dir, "resources/python-env/bin/python"))
        } else if windows_present {
            Some(join_path(exe_dir, "resources/python-env/Scripts/python.exe"))
        } else {
            None
        }
    }

    /// Reads the package manager's single-line interpreter lookup: its
    /// trimmed output on success, a reportable error when the lookup gave
    /// nothing. Never a panic.
    pub fn interpreter_from_lookup(&self, output: Option<String>) -> (r: Result<String, String>)
        ensures
            output matches Some(o) ==> r matches Ok(p) && p@ == trimmed(o@),
            output is None ==> (r matches Err(e) && e@
                == "Unable to locate a Python environment"@),
    {
        match output {
            Some(o) => Ok(trim_str(o.as_str())),
            None => {
                let e = String::new();
                Err(e.concat("Unable to locate a Python environment"))
            },
        }
    }
}

// ---------------------------------------------------------------------------
// Substring search (the bundled-runtime marker test)
// ---------------------------------------------------------------------------

pub open spec fn contains_at(h: Seq<char>, n: Seq<char>, i: int) -> bool {
    0 <= i && i + n.len() <= h.len() && h.subrange(i, i + n.len()) == n
}

pub open spec fn contains_seq(h: Seq<char>, n: Seq<char>) -> bool {
    exists|i: int| contains_at(h, n, i)
}

/// Plain substring search.
pub fn str_contains(hay: &str, needle: &str) -> (b: bool)
    ensures
        b == contains_seq(hay@, needle@),
{
    let hn = hay.unicode_len();
    let nn = needle.unicode_len();
    if nn > hn {
        proof {
            assert(!contains_seq(hay@, needle@));
        }
        return false;
    }
    if nn == 0 {
        proof {
            assert(hay@.subrange(0, 0) =~= needle@);
            assert(contains_at(hay@, needle@, 0));
        }
        return true;
    }
    let mut i: usize = 0;
    while i <= hn - nn
        invariant
            hn == hay@.len(),
            nn == needle@.len(),
            1 <= nn <= hn,
            i <= hn - nn + 1,
            forall|k: int| 0 <= k < i ==> !contains_at(hay@, needle@, k),
        decreases hn - i,
    {
        let mut j: usize = 0;
        let mut hit = true;
        while j < nn
            invariant
                hn == hay@.len(),
                nn == needle@.len(),
                i + nn <= hn,
                j <= nn,
                hit ==> forall|m: int| 0 <= m < j ==> hay@[i + m] == needle@[m],
                !hit ==> !contains_at(hay@, needle@, i as int),
            decreases nn - j,
        {
            if hay.get_char(i + j) != needle.get_char(j) {
                proof {
                    if contains_at(hay@, needle@, i as int) {
                        assert(hay@.subrange(i as int, i + nn as int)[j as int] == needle@[
                            j as int
                        ]);
                        assert(false);
                    }
                }
                hit = false;
                j = nn;
            } else {
                j = j + 1;
            }
        }
        if hit {
            proof {
                assert(hay@.subrange(i as int, i + nn as int) =~= needle@);
                assert(contains_at(hay@, needle@, i as int));
            }
            return true;
        }
        i = i + 1;
    }
    proof {
        assert forall|k: int| !contains_at(hay@, needle@, k) by {
            if 0 <= k && k + needle@.len() <= hay@.len() {
                assert(k < i);
            }
        }
    }
    false
}

/// Is this path inside the bundled runtime? The bundled layout's marker
/// directory appearing anywhere in the path decides.
pub fn is_standalone_path(path: &str) -> (b: bool)
    ensures
        b == contains_seq(path@, "resources/python-env"@),
{
    str_contains(path, "resources/python-env")
}

// ---------------------------------------------------------------------------
// Trimming (the interpreter lookup's one-line output)
// ---------------------------------------------------------------------------

pub open spec fn trim_front(t: Seq<char>) -> Seq<char>
    decreases t.len(),
{
    if t.len() > 0 && is_ws(t[0]) {
        trim_front(t.skip(1))
    } else {
        t
    }
}

pub open spec fn trim_back(t: Seq<char>) -> Seq<char>
    decreases t.len(),
{
    if t.len() > 0 && is_ws(t.last()) {
        trim_back(t.drop_last())
    } else {
        t
    }
}

/// `t` without leading and trailing whitespace.
pub open spec fn trimmed(t: Seq<char>) -> Seq<char> {
    trim_back(trim_front(t))
}

/// Removes leading and trailing whitespace, as `trimmed` states.
pub fn trim_str(s: &str) -> (r: String)
    ensures
        r@ == trimmed(s@),
{
    let n = s.unicode_len();
    proof {
        assert(s@.skip(0) =~= s@);
    }
    let mut lo: usize = 0;
    while lo < n && is_ws_exec(s.get_char(lo))
        invariant
            n == s@.len(),
            lo <= n,
            trim_front(s@) == trim_front(s@.skip(lo as int)),
        decreases n - lo,
    {
        proof {
            assert(s@.skip(lo as int)[0] == s@[lo as int]);
            assert(s@.skip(lo as int).skip(1) =~= s@.skip(lo + 1 as int));
        }
        lo = lo + 1;
    }
    proof {
        if lo < n {
            assert(s@.skip(lo as int)[0] == s@[lo as int]);
        }
        assert(trim_front(s@) == s@.skip(lo as int));
    }
    let mut hi: usize = n;
    while hi > lo && is_ws_exec(s.get_char(hi - 1))
        invariant
            n == s@.len(),
            lo <= hi <= n,
            trim_front(s@) == s@.skip(lo as int),
            trim_back(s@.skip(lo as int)) == trim_back(s@.subrange(lo as int, hi as int)),
        decreases hi,
    {
        proof {
            let cur = s@.subrange(lo as int, hi as int);
            assert(cur.last() == s@[hi - 1]);
            assert(cur.drop_last() =~= s@.subrange(lo as int, hi - 1));
        }
        hi = hi - 1;
    }
    proof {
        let cur = s@.subrange(lo as int, hi as int);
        if hi > lo {
            assert(cur.last() == s@[hi - 1]);
        }
        assert(trim_back(cur) == cur);
        assert(trimmed(s@) == s@.subrange(lo as int, hi as int));
    }
    let piece = s.substring_char(lo, hi);
    let r = String::new();
    r.concat(piece)
}

fn is_ws_exec(c: char) -> (b: bool)
    ensures
        b == is_ws(c),
{
    c == ' ' || c == '\n' || c == '\r' || c == '\t'
}

// ---------------------------------------------------------------------------
// Small renderings the application hands on
// ---------------------------------------------------------------------------

/// The interpreter summary shown to the user: version, interpreter path,
/// package-manager path.
pub fn format_python_info(version: &str, python_path: &str, uv_path: &str) -> (r: String)
    ensures
        r@ == version@ + " @ "@ + python_path@ + "\nUV: "@ + uv_path@,
{
    let mut r = String::new();
    r.append(version);
    r.append(" @ ");
    r.append(python_path);
    r.append("\nUV: ");
    r.append(uv_path);
    proof {
        assert(r@ =~= version@ + " @ "@ + python_path@ + "\nUV: "@ + uv_path@);
    }
    r
}

/// The two resolved paths in the environment-file form the backend reads.
pub fn env_file_contents(python_path: &str, uv_path: &str) -> (r: String)
    ensures
        r@ == "DAWEI_PYTHON_PATH="@ + python_path@ + "\nDAWEI_UV_PATH="@ + uv_path@ + "\n"@,
{
    let mut r = String::new();
    r.append("DAWEI_PYTHON_PATH=");
    r.append(python_path);
    r.append("\nDAWEI_UV_PATH=");
    r.append(uv_path);
    r.append("\n");
    proof {
        assert(r@ =~= "DAWEI_PYTHON_PATH="@ + python_path@ + "\nDAWEI_UV_PATH="@ + uv_path@
            + "\n"@);
    }
    r
}

/// The application's home directory: the override environment variable if
/// set, else `.dawei` under the user's home directory, else under the
/// current directory.
pub fn dawei_home_path(env_value: Option<String>, home_dir: Option<String>) -> (r: String)
    ensures
        env_value matches Some(h) ==> r@ == h@,
        env_value is None ==> (home_dir matches Some(h) ==> r@ == path_join(h@, ".dawei"@)),
        env_value is None && home_dir is None ==> r@ == path_join("."@, ".dawei"@),
{
    match env_value {
        Some(h) => h,
        None => match home_dir {
            Some(h) => join_path(h.as_str(), ".dawei"),
            None => join_path(".", ".dawei"),
        },
    }
}

} // verus!
