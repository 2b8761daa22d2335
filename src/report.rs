use vstd::prelude::*;
use crate::lister::FunctionRecord;

verus! {

/// `needle` occurs in `hay` as a run of consecutive characters.
pub open spec fn contains_at(hay: Seq<char>, needle: Seq<char>, k: int) -> bool {
    0 <= k && k + needle.len() <= hay.len() && hay.subrange(k, k + needle.len()) == needle
}

pub open spec fn is_substring(hay: Seq<char>, needle: Seq<char>) -> bool {
    exists|k: int| contains_at(hay, needle, k)
}

fn chars_of(s: &str) -> (r: Vec<char>)
    ensures
        r@ == s@,
{
    let n = s.unicode_len();
    let mut r: Vec<char> = Vec::new();
    let mut i: usize = 0;
    while i < n
        invariant
            n == s@.len(),
            i <= n,
            r@ == s@.subrange(0, i as int),
        decreases n - i,
    {
        r.push(s.get_char(i));
        i = i + 1;
        assert(r@ =~= s@.subrange(0, i as int));
    }
    assert(r@ =~= s@);
    r
}

/// Whether `needle` occurs in `hay` starting at `k`.
fn matches_at(hay: &Vec<char>, needle: &Vec<char>, k: usize) -> (r: bool)
    requires
        k + needle@.len() <= hay@.len(),
    ensures
        r == contains_at(hay@, needle@, k as int),
{
    let mut j: usize = 0;
    while j < needle.len()
        invariant
            k + needle@.len() <= hay@.len(),
            j <= needle@.len(),
            hay@.len() == hay.len(),
            forall|t: int| 0 <= t < j ==> hay@[k + t] == needle@[t],
        decreases needle@.len() - j,
    {
        if hay[k + j] != needle[j] {
            assert(hay@.subrange(k as int, k + needle@.len())[j as int] != needle@[j as int]);
            return false;
        }
        j = j + 1;
    }
    assert(hay@.subrange(k as int, k + needle@.len()) =~= needle@);
    true
}

/// Whether `needle` occurs in `hay`, as `str::contains` answers it.
pub fn str_contains(hay: &str, needle: &str) -> (r: bool)
    ensures
        r == is_substring(hay@, needle@),
{
    let h = chars_of(hay);
    let n = chars_of(needle);
    if n.len() > h.len() {
        assert forall|k: int| !contains_at(hay@, needle@, k) by {}
        return false;
    }
    let last = h.len() - n.len();
    let mut k: usize = 0;
    loop
        invariant
            k <= last,
            last + n@.len() == h@.len(),
            h@ == hay@,
            n@ == needle@,
            forall|t: int| 0 <= t < k ==> !contains_at(hay@, needle@, t),
        decreases last - k,
    {
        if matches_at(&h, &n, k) {
            return true;
        }
        if k == last {
            assert forall|t: int| !contains_at(hay@, needle@, t) by {
                if 0 <= t <= last && t != k {
                    assert(t < k);
                }
            }
            return false;
        }
        k = k + 1;
    }
}


/// One line of the report, for one repository that has a version.
pub enum ReportLine {
    /// `function` is the index, in the function list, of the first function
    /// whose name contains the repository name.
    Matched { repository: String, function: usize, version: String },
    /// No function name contains the repository name.
    NotFound { repository: String },
}

/// `j` is the first function whose name contains `repo`.
pub open spec fn is_first_match(fs: Seq<FunctionRecord>, repo: Seq<char>, j: int) -> bool {
    &&& 0 <= j < fs.len()
    &&& is_substring(fs[j].name@, repo)
    &&& forall|t: int| 0 <= t < j ==> !is_substring(#[trigger] fs[t].name@, repo)
}

/// No function name contains `repo`.
pub open spec fn has_no_match(fs: Seq<FunctionRecord>, repo: Seq<char>) -> bool {
    forall|t: int| 0 <= t < fs.len() ==> !is_substring(#[trigger] fs[t].name@, repo)
}

/// `line` reports `entry` against the functions `fs`.
pub open spec fn reports(fs: Seq<FunctionRecord>, entry: (String, String), line: ReportLine) -> bool {
    match line {
        ReportLine::Matched { repository, function, version } => {
            &&& repository@ == entry.0@
            &&& version@ == entry.1@
            &&& is_first_match(fs, entry.0@, function as int)
        },
        ReportLine::NotFound { repository } => {
            &&& repository@ == entry.0@
            &&& has_no_match(fs, entry.0@)
        },
    }
}

/// The first function whose name contains `repo`.
pub fn find_function(functions: &Vec<FunctionRecord>, repo: &str) -> (r: Option<usize>)
    ensures
        match r {
            Some(j) => is_first_match(functions@, repo@, j as int),
            None => has_no_match(functions@, repo@),
        },
{
    let mut j: usize = 0;
    while j < functions.len()
        invariant
            j <= functions@.len(),
            forall|t: int| 0 <= t < j ==> !is_substring(#[trigger] functions@[t].name@, repo@),
        decreases functions@.len() - j,
    {
        if str_contains(functions[j].name.as_str(), repo) {
            return Some(j);
        }
        j = j + 1;
    }
    None
}

/// Joins the versions to the functions: for each repository, in order, the
/// first function whose name contains the repository's name, or a line
/// saying that none does.
pub fn join_report(functions: &Vec<FunctionRecord>, versions: &Vec<(String, String)>) -> (r: Vec<
    ReportLine,
>)
    ensures
        r@.len() == versions@.len(),
        forall|i: int| 0 <= i < r@.len() ==> reports(functions@, versions@[i], #[trigger] r@[i]),
{
    let mut r: Vec<ReportLine> = Vec::new();
    let mut i: usize = 0;
    while i < versions.len()
        invariant
            i <= versions@.len(),
            r@.len() == i,
            forall|t: int| 0 <= t < i ==> reports(functions@, versions@[t], #[trigger] r@[t]),
        decreases versions@.len() - i,
    {
        let repository = versions[i].0.clone();
        let line = match find_function(functions, versions[i].0.as_str()) {
            Some(j) => ReportLine::Matched { repository, function: j, version: versions[i].1.clone() },
            None => ReportLine::NotFound { repository },
        };
        r.push(line);
        i = i + 1;
    }
    r
}

} // verus!
