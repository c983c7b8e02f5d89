//! Turning the raw entries of a directory walk into the list of named
//! files to compare, applying an optional regular-expression name filter.
//!
//! The walk itself is unverified input: each regular file met during the
//! traversal arrives as a `ScanEntry`, whose name or path is `None` when
//! the file system gave text that cannot be represented as a string.
//! Such an entry aborts the whole collection, by design: silently
//! dropping a file could hide a real duplicate.

use vstd::prelude::*;

verus! {

/// Whether the pattern compiles as a regular expression (within the
/// default size limit); a function of the pattern alone.
pub uninterp spec fn regex_valid(pat: Seq<char>) -> bool;

/// Whether the compiled pattern matches anywhere in the text; a function
/// of pattern and text alone.
pub uninterp spec fn regex_matches(pat: Seq<char>, text: Seq<char>) -> bool;

#[verifier::external_type_specification]
#[verifier::external_body]
pub struct ExRegex(regex::Regex);

/// A compiled name filter, remembering the pattern it was built from.
pub struct NameFilter {
    re: regex::Regex,
    pat: String,
}

/// Relies on regex::Regex::new: returns Ok exactly when the pattern
/// compiles (an invalid pattern, or one over the default size limit, is
/// an error); the outcome depends on the pattern alone.  The error case
/// carries the parser's own message.
#[verifier::external_body]
fn filter_new(pat: &str) -> (r: Result<NameFilter, String>)
    ensures
        r is Ok <==> regex_valid(pat@),
        r matches Ok(f) ==> f.pat@ == pat@,
{
    match regex::Regex::new(pat) {
        Ok(re) => Ok(NameFilter { re, pat: pat.to_string() }),
        Err(e) => Err(format!("{}", e)),
    }
}

/// Relies on regex::Regex::is_match: true if and only if the pattern the
/// filter was built from matches anywhere in the haystack.
#[verifier::external_body]
fn filter_is_match(f: &NameFilter, hay: &str) -> (r: bool)
    ensures
        r == regex_matches(f.pat@, hay@),
{
    f.re.is_match(hay)
}

/// One regular file met during the directory walk.  A `None` name or
/// path records that the file system entry could not be represented as
/// text.
#[derive(Clone, Debug, PartialEq, Eq)]
pub struct ScanEntry {
    pub name: Option<String>,
    pub path: Option<String>,
}

/// The mathematical content of a `ScanEntry`.
pub ghost struct ScanEntryV {
    pub name: Option<Seq<char>>,
    pub path: Option<Seq<char>>,
}

impl View for ScanEntry {
    type V = ScanEntryV;

    open spec fn view(&self) -> ScanEntryV {
        ScanEntryV {
            name: match self.name {
                Option::None => Option::None,
                Option::Some(n) => Option::Some(n@),
            },
            path: match self.path {
                Option::None => Option::None,
                Option::Some(p) => Option::Some(p@),
            },
        }
    }
}

/// One discovered regular file: its base name, the comparison key, and
/// its full path, kept only for reporting.
#[derive(Clone, Debug, PartialEq, Eq)]
pub struct NamePath {
    pub name: String,
    pub path: String,
}

/// The mathematical content of a `NamePath`.
pub ghost struct NamePathV {
    pub name: Seq<char>,
    pub path: Seq<char>,
}

impl View for NamePath {
    type V = NamePathV;

    open spec fn view(&self) -> NamePathV {
        NamePathV { name: self.name@, path: self.path@ }
    }
}

/// Why a collection run was aborted.
#[derive(Clone, Debug, PartialEq, Eq)]
pub enum FdupeError {
    /// The filter pattern did not compile; carries the parser's message.
    InvalidPattern(String),
    /// A regular file's base name is not representable as text.
    MissingName,
    /// A regular file's full path is not representable as text.
    MissingPath,
}

/// The mathematical content of a `FdupeError`, with the message dropped.
pub ghost enum FdupeErrorV {
    InvalidPattern,
    MissingName,
    MissingPath,
}

impl View for FdupeError {
    type V = FdupeErrorV;

    open spec fn view(&self) -> FdupeErrorV {
        match self {
            FdupeError::InvalidPattern(_) => FdupeErrorV::InvalidPattern,
            FdupeError::MissingName => FdupeErrorV::MissingName,
            FdupeError::MissingPath => FdupeErrorV::MissingPath,
        }
    }
}

/// The views of a sequence of entries.
pub open spec fn entries_view(s: Seq<ScanEntry>) -> Seq<ScanEntryV> {
    s.map_values(|e: ScanEntry| e@)
}

/// The views of a sequence of name-path records.
pub open spec fn paths_view(s: Seq<NamePath>) -> Seq<NamePathV> {
    s.map_values(|p: NamePath| p@)
}

/// The view of an optional filter pattern.
pub open spec fn filter_view(f: Option<&str>) -> Option<Seq<char>> {
    match f {
        Option::None => Option::None,
        Option::Some(p) => Option::Some(p@),
    }
}

/// Whether a base name passes the optional filter.
pub open spec fn keeps(name: Seq<char>, f: Option<Seq<char>>) -> bool {
    match f {
        Option::None => true,
        Option::Some(p) => regex_matches(p, name),
    }
}

/// The collection of the first `k` entries: the kept records in entry
/// order, or the error of the first entry that is not representable.
pub open spec fn gather_upto(s: Seq<ScanEntryV>, f: Option<Seq<char>>, k: int) -> Result<
    Seq<NamePathV>,
    FdupeErrorV,
>
    decreases k,
{
    if k <= 0 {
        Result::Ok(Seq::empty())
    } else {
        match gather_upto(s, f, k - 1) {
            Result::Err(e) => Result::Err(e),
            Result::Ok(acc) => {
                let e = s[k - 1];
                if e.name is None {
                    Result::Err(FdupeErrorV::MissingName)
                } else if e.path is None {
                    Result::Err(FdupeErrorV::MissingPath)
                } else if keeps(e.name->Some_0, f) {
                    Result::Ok(acc.push(NamePathV { name: e.name->Some_0, path: e.path->Some_0 }))
                } else {
                    Result::Ok(acc)
                }
            },
        }
    }
}

/// The collection of a whole entry sequence.
pub open spec fn gather(s: Seq<ScanEntryV>, f: Option<Seq<char>>) -> Result<
    Seq<NamePathV>,
    FdupeErrorV,
> {
    gather_upto(s, f, s.len() as int)
}

/// Once a prefix fails, every longer prefix fails the same way.
proof fn lemma_gather_err_persists(s: Seq<ScanEntryV>, f: Option<Seq<char>>, k: int, m: int)
    requires
        0 <= k <= m,
        gather_upto(s, f, k) is Err,
    ensures
        gather_upto(s, f, m) == gather_upto(s, f, k),
    decreases m,
{
    if m > k {
        lemma_gather_err_persists(s, f, k, m - 1);
    }
}

/// Collects the name-path records of the walked entries, in walk order,
/// keeping only names that match the filter when one is given.  An
/// invalid filter pattern, or an entry whose name or path is not
/// representable as text, aborts the whole collection.
pub fn get_paths(entries: &Vec<ScanEntry>, filter: Option<&str>) -> (r: Result<
    Vec<NamePath>,
    FdupeError,
>)
    ensures
        ({
            let fv = filter_view(filter);
            if fv is Some && !regex_valid(fv->Some_0) {
                r is Err && r->Err_0 is InvalidPattern
            } else {
                match gather(entries_view(entries@), fv) {
                    Result::Ok(ps) => r is Ok && paths_view(r->Ok_0@) == ps,
                    Result::Err(ev) => r is Err && r->Err_0@ == ev && !(r->Err_0
                        is InvalidPattern),
                }
            }
        }),
{
    let ghost fv = filter_view(filter);
    let ghost ev = entries_view(entries@);
    let nf: Option<NameFilter> = match filter {
        None => None,
        Some(p) => match filter_new(p) {
            Ok(f) => Some(f),
            Err(msg) => {
                return Err(FdupeError::InvalidPattern(msg));
            },
        },
    };
    let mut out: Vec<NamePath> = Vec::new();
    let mut k: usize = 0;
    proof {
        assert(paths_view(out@) =~= Seq::<NamePathV>::empty());
    }
    while k < entries.len()
        invariant
            fv == filter_view(filter),
            ev == entries_view(entries@),
            ev.len() == entries@.len(),
            k <= entries@.len(),
            fv is Some ==> regex_valid(fv->Some_0),
            fv is Some <==> nf is Some,
            nf matches Some(f) ==> f.pat@ == fv->Some_0,
            gather_upto(ev, fv, k as int) == Result::<Seq<NamePathV>, FdupeErrorV>::Ok(
                paths_view(out@),
            ),
        decreases entries@.len() - k,
    {
        let entry = &entries[k];
        proof {
            assert(ev[k as int] == entries@[k as int]@);
        }
        match &entry.name {
            None => {
                proof {
                    lemma_gather_err_persists(ev, fv, k + 1, ev.len() as int);
                }
                return Err(FdupeError::MissingName);
            },
            Some(name) => {
                match &entry.path {
                    None => {
                        proof {
                            lemma_gather_err_persists(ev, fv, k + 1, ev.len() as int);
                        }
                        return Err(FdupeError::MissingPath);
                    },
                    Some(path) => {
                        let keep = match &nf {
                            None => true,
                            Some(f) => filter_is_match(f, name.as_str()),
                        };
                        if keep {
                            let np = NamePath { name: name.clone(), path: path.clone() };
                            proof {
                                assert(paths_view(out@.push(np)) =~= paths_view(out@).push(np@));
                            }
                            out.push(np);
                        }
                    },
                }
            },
        }
        k = k + 1;
    }
    Ok(out)
}

} // verus!
