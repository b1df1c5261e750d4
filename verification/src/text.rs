use vstd::prelude::*;
use vstd::string::*;

verus! {

/// The characters treated as surrounding whitespace of a page title.
pub open spec fn is_space_char(c: char) -> bool {
    c == ' ' || c == '\t' || c == '\n' || c == '\r'
}

/// Index of the first character of `s` at or after `i` that is not
/// whitespace, or `s.len()` when every character from `i` on is whitespace.
pub open spec fn scan_start(s: Seq<char>, i: int) -> int
    decreases s.len() - i,
{
    if 0 <= i < s.len() && is_space_char(s[i]) {
        scan_start(s, i + 1)
    } else {
        i
    }
}

/// Index one past the last character of `s` strictly below `j` that is not
/// whitespace, or `0` when every character below `j` is whitespace.
pub open spec fn scan_end(s: Seq<char>, j: int) -> int
    decreases j,
{
    if 0 < j <= s.len() && is_space_char(s[j - 1]) {
        scan_end(s, j - 1)
    } else {
        j
    }
}

/// `s` with its leading and trailing whitespace removed.
pub open spec fn trim_spec(s: Seq<char>) -> Seq<char> {
    let start = scan_start(s, 0);
    let end = scan_end(s, s.len() as int);
    if start <= end {
        s.subrange(start, end)
    } else {
        Seq::empty()
    }
}

proof fn lemma_scan_end(s: Seq<char>, j: int)
    requires
        0 <= j <= s.len(),
    ensures
        0 <= scan_end(s, j) <= j,
    decreases j,
{
    if 0 < j && is_space_char(s[j - 1]) {
        lemma_scan_end(s, j - 1);
    }
}

fn is_space(c: char) -> (r: bool)
    ensures
        r == is_space_char(c),
{
    c == ' ' || c == '\t' || c == '\n' || c == '\r'
}

/// `s` with leading and trailing whitespace removed, as a fresh string.
pub fn trim_str(s: &str) -> (r: String)
    ensures
        r@ == trim_spec(s@),
{
    let n = s.unicode_len();
    let mut i: usize = 0;
    while i < n && is_space(s.get_char(i))
        invariant
            n == s@.len(),
            0 <= i <= n,
            scan_start(s@, 0) == scan_start(s@, i as int),
        decreases n - i,
    {
        i = i + 1;
    }
    assert(scan_start(s@, i as int) == i as int);
    let mut j: usize = n;
    while j > i && is_space(s.get_char(j - 1))
        invariant
            n == s@.len(),
            0 <= i <= j <= n,
            scan_start(s@, 0) == i as int,
            i < n ==> !is_space_char(s@[i as int]),
            i < n ==> j > i,
            scan_end(s@, n as int) == scan_end(s@, j as int),
        decreases j,
    {
        j = j - 1;
    }
    proof {
        lemma_scan_end(s@, n as int);
        if j > i {
            assert(scan_end(s@, j as int) == j as int);
        } else {
            // The loops met, so the first one ran to the end of the string:
            // the trimmed result is empty either way.
            assert(i == n);
            assert(trim_spec(s@) =~= s@.subrange(i as int, j as int)) by {
                if scan_start(s@, 0) <= scan_end(s@, n as int) {
                }
            }
        }
    }
    let cut = s.substring_char(i, j);
    assert(cut@ =~= trim_spec(s@));
    cut.to_owned()
}

/// The last `suf.len()` characters of `s` are exactly `suf`.
pub open spec fn has_suffix(s: Seq<char>, suf: Seq<char>) -> bool {
    s.len() >= suf.len() && s.skip(s.len() - suf.len()) == suf
}

/// Whether `s` ends with the characters of `suf`.
pub fn ends_with_str(s: &str, suf: &str) -> (r: bool)
    ensures
        r == has_suffix(s@, suf@),
{
    let n = s.unicode_len();
    let m = suf.unicode_len();
    if m > n {
        return false;
    }
    let mut k: usize = 0;
    while k < m
        invariant
            n == s@.len(),
            m == suf@.len(),
            m <= n,
            0 <= k <= m,
            forall|t: int| 0 <= t < k ==> s@[n - m + t] == suf@[t],
        decreases m - k,
    {
        if s.get_char(n - m + k) != suf.get_char(k) {
            assert(!has_suffix(s@, suf@)) by {
                if has_suffix(s@, suf@) {
                    assert(s@.skip(n - m)[k as int] == suf@[k as int]);
                }
            }
            return false;
        }
        k = k + 1;
    }
    assert(s@.skip(n - m) =~= suf@);
    true
}

/// The suffix a page title carries on the source site.
pub open spec fn title_suffix() -> Seq<char> {
    " Flashcards | Quizlet"@
}

/// The file extension of a deck package.
pub open spec fn package_ext() -> Seq<char> {
    ".apkg"@
}

/// The output file name for a deck: the caller's explicit choice when one was
/// given, otherwise the page title with the source site's suffix stripped;
/// either way the package extension is appended unless already present.
pub open spec fn spec_filename(title: Seq<char>, out: Option<Seq<char>>) -> Seq<char> {
    let base = match out {
        Some(o) => o,
        None => if has_suffix(title, title_suffix()) {
            title.take(title.len() - title_suffix().len())
        } else {
            title
        },
    };
    if has_suffix(base, package_ext()) {
        base
    } else {
        base + package_ext()
    }
}

/// Derives the output file name from the page title and the optional
/// caller-chosen name.
pub fn derive_filename(title: &str, out: Option<String>) -> (r: String)
    ensures
        r@ == spec_filename(title@, out.deep_view()),
{
    let mut base: String = match out {
        Some(o) => o,
        None => {
            let suffix = " Flashcards | Quizlet";
            if ends_with_str(title, suffix) {
                let n = title.unicode_len();
                let m = suffix.unicode_len();
                let stripped = title.substring_char(0, n - m);
                assert(stripped@ =~= title@.take(title@.len() - title_suffix().len()));
                stripped.to_owned()
            } else {
                title.to_owned()
            }
        },
    };
    if !ends_with_str(base.as_str(), ".apkg") {
        base.append(".apkg");
    }
    base
}

} // verus!
