//! Source and destination paths of a conversion.

use vstd::prelude::*;

verus! {

/// Why the paths of a run were refused.
#[derive(Debug, Clone, Copy, PartialEq, Eq, Structural)]
pub enum ConfigError {
    /// The source path does not contain `.csv`.
    InvalidSource,
    /// The destination path given does not contain `.json`.
    InvalidDestination,
}

/// `t` occurs in `s` as a contiguous run of characters.
pub open spec fn contains_seq(s: Seq<char>, t: Seq<char>) -> bool {
    exists|i: int| 0 <= i && i + t.len() <= s.len() && #[trigger] s.subrange(i, i + t.len()) == t
}

/// What precedes the last `.` of `s`, or `None` where `s` holds no `.`.
pub open spec fn before_last_dot(s: Seq<char>) -> Option<Seq<char>>
    decreases s.len(),
{
    if s.len() == 0 {
        None
    } else if s.last() == '.' {
        Some(s.drop_last())
    } else {
        before_last_dot(s.drop_last())
    }
}

/// `s` without its extension: what precedes its last `.`, or all of it.
pub open spec fn stem(s: Seq<char>) -> Seq<char> {
    match before_last_dot(s) {
        Some(p) => p,
        None => s,
    }
}

/// The characters of `t` match those of `s` from position `i` on.
fn matches_at(s: &str, t: &str, i: usize, m: usize) -> (r: bool)
    requires
        m == t@.len(),
        i + m <= s@.len(),
        s@.len() <= usize::MAX,
    ensures
        r == (s@.subrange(i as int, i + m) == t@),
{
    let mut j: usize = 0;
    while j < m
        invariant
            j <= m,
            m == t@.len(),
            i + m <= s@.len(),
            s@.len() <= usize::MAX,
            forall|k: int| 0 <= k < j ==> s@[i + k] == t@[k],
        decreases m - j,
    {
        if s.get_char(i + j) != t.get_char(j) {
            assert(s@.subrange(i as int, i + m)[j as int] != t@[j as int]);
            return false;
        }
        j += 1;
    }
    assert(s@.subrange(i as int, i + m) =~= t@);
    true
}

/// Whether `t` occurs in `s`.
fn contains_str(s: &str, t: &str) -> (r: bool)
    ensures
        r == contains_seq(s@, t@),
{
    let n = s.unicode_len();
    let m = t.unicode_len();
    if m > n {
        return false;
    }
    if m == 0 {
        assert(s@.subrange(0, 0 + t@.len() as int) =~= t@);
        return true;
    }
    let mut i: usize = 0;
    while i <= n - m
        invariant
            n == s@.len(),
            m == t@.len(),
            1 <= m <= n,
            i <= n - m + 1,
            forall|k: int| 0 <= k < i ==> #[trigger] s@.subrange(k, k + m) != t@,
        decreases n - m + 1 - i,
    {
        if matches_at(s, t, i, m) {
            return true;
        }
        i += 1;
    }
    false
}

/// The position of the last `.` of `s`, if any.
fn last_dot(s: &str) -> (r: Option<usize>)
    ensures
        match r {
            Some(p) => p < s@.len() && before_last_dot(s@) == Some(s@.subrange(0, p as int)),
            None => before_last_dot(s@) is None,
        },
{
    let mut i: usize = s.unicode_len();
    assert(s@.subrange(0, i as int) =~= s@);
    while i > 0
        invariant
            i <= s@.len(),
            before_last_dot(s@) == before_last_dot(s@.subrange(0, i as int)),
        decreases i,
    {
        let ghost prefix = s@.subrange(0, i as int);
        assert(prefix.drop_last() =~= s@.subrange(0, i - 1));
        if s.get_char(i - 1) == '.' {
            return Some(i - 1);
        }
        i -= 1;
    }
    None
}

/// The source and destination paths of a run. The source must contain
/// `.csv`. A destination given must contain `.json`; where none is given,
/// it is the source with its extension replaced by `.json`.
pub fn get_file_names(input: String, output: Option<String>) -> (r: Result<(String, String), ConfigError>)
    ensures
        match r {
            Ok((src, dest)) => contains_seq(input@, ".csv"@) && src@ == input@ && match output {
                Some(o) => contains_seq(o@, ".json"@) && dest@ == o@,
                None => dest@ == stem(input@) + ".json"@,
            },
            Err(ConfigError::InvalidSource) => !contains_seq(input@, ".csv"@),
            Err(ConfigError::InvalidDestination) => contains_seq(input@, ".csv"@) && output is Some
                && !contains_seq(output->0@, ".json"@),
        },
{
    if !contains_str(input.as_str(), ".csv") {
        return Err(ConfigError::InvalidSource);
    }
    let dest = match output {
        Some(o) => {
            if !contains_str(o.as_str(), ".json") {
                return Err(ConfigError::InvalidDestination);
            }
            o
        },
        None => {
            let mut d = match last_dot(input.as_str()) {
                Some(p) => String::from_str(input.as_str().substring_char(0, p)),
                None => input.clone(),
            };
            d.append(".json");
            d
        },
    };
    Ok((input, dest))
}

} // verus!
