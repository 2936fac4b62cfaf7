//! Text helpers for the capture pipeline: decimal formatting for
//! date-partitioned paths, filesystem-safe normalization of window titles,
//! and case-insensitive substring matching for exclusion lists and search.
use vstd::prelude::*;
use vstd::string::*;

verus! {

/// The decimal digit character for `d` (meaningful for `0 <= d <= 9`).
pub open spec fn digit_char(d: int) -> char {
    if d == 0 {
        '0'
    } else if d == 1 {
        '1'
    } else if d == 2 {
        '2'
    } else if d == 3 {
        '3'
    } else if d == 4 {
        '4'
    } else if d == 5 {
        '5'
    } else if d == 6 {
        '6'
    } else if d == 7 {
        '7'
    } else if d == 8 {
        '8'
    } else {
        '9'
    }
}

/// A one-character string for a single decimal digit.
pub fn digit_str(d: u32) -> (r: &'static str)
    requires
        d < 10,
    ensures
        r@ == seq![digit_char(d as int)],
{
    proof {
        reveal_strlit("0");
        reveal_strlit("1");
        reveal_strlit("2");
        reveal_strlit("3");
        reveal_strlit("4");
        reveal_strlit("5");
        reveal_strlit("6");
        reveal_strlit("7");
        reveal_strlit("8");
        reveal_strlit("9");
    }
    let r: &'static str = match d {
        0 => "0",
        1 => "1",
        2 => "2",
        3 => "3",
        4 => "4",
        5 => "5",
        6 => "6",
        7 => "7",
        8 => "8",
        _ => "9",
    };
    proof {
        assert(r@ =~= seq![digit_char(d as int)]);
    }
    r
}

/// Two zero-padded decimal digits, as used for month and day directories.
pub open spec fn pad2_spec(n: int) -> Seq<char> {
    seq![digit_char(n / 10), digit_char(n % 10)]
}

pub fn pad2(n: u32) -> (r: String)
    requires
        n < 100,
    ensures
        r@ == pad2_spec(n as int),
{
    let mut s = String::from_str(digit_str(n / 10));
    s.append(digit_str(n % 10));
    proof {
        assert(s@ =~= pad2_spec(n as int));
    }
    s
}

/// Four zero-padded decimal digits, as used for year directories.
pub open spec fn pad4_spec(n: int) -> Seq<char> {
    seq![
        digit_char(n / 1000),
        digit_char((n / 100) % 10),
        digit_char((n / 10) % 10),
        digit_char(n % 10),
    ]
}

pub fn pad4(n: u32) -> (r: String)
    requires
        n < 10000,
    ensures
        r@ == pad4_spec(n as int),
{
    let mut s = String::from_str(digit_str(n / 1000));
    s.append(digit_str((n / 100) % 10));
    s.append(digit_str((n / 10) % 10));
    s.append(digit_str(n % 10));
    proof {
        assert(s@ =~= pad4_spec(n as int));
    }
    s
}

/// The usual decimal rendering of a natural number, most significant digit
/// first, with no leading zeros (except for zero itself).
pub open spec fn dec_spec(n: int) -> Seq<char>
    decreases n,
{
    if n < 10 {
        seq![digit_char(n)]
    } else {
        dec_spec(n / 10) + seq![digit_char(n % 10)]
    }
}

pub fn u32_string(n: u32) -> (r: String)
    ensures
        r@ == dec_spec(n as int),
    decreases n,
{
    if n < 10 {
        String::from_str(digit_str(n))
    } else {
        proof {
            assert(n / 10 < n) by (nonlinear_arith)
                requires
                    n >= 10,
            ;
        }
        let mut s = u32_string(n / 10);
        s.append(digit_str(n % 10));
        proof {
            assert(s@ =~= dec_spec(n as int));
        }
        s
    }
}

/// Characters that are replaced when a window title is embedded in a
/// filename.
pub open spec fn is_reserved(c: char) -> bool {
    c == '|' || c == '\\' || c == ':' || c == '/' || c == '<' || c == '>' || c == '"' || c == '?'
        || c == '*'
}

/// A title with every filesystem-reserved character replaced by `_`.
pub open spec fn norm_spec(s: Seq<char>) -> Seq<char> {
    Seq::new(s.len(), |i: int| if is_reserved(s[i]) { '_' } else { s[i] })
}

pub fn normalized(filename: &str) -> (r: String)
    ensures
        r@ == norm_spec(filename@),
{
    let n = filename.unicode_len();
    let mut out = String::new();
    let mut i: usize = 0;
    while i < n
        invariant
            n == filename@.len(),
            i <= n,
            out@ == norm_spec(filename@).take(i as int),
        decreases n - i,
    {
        let c = filename.get_char(i);
        if c == '|' || c == '\\' || c == ':' || c == '/' || c == '<' || c == '>' || c == '"'
            || c == '?' || c == '*' {
            out.append("_");
            proof {
                reveal_strlit("_");
            }
        } else {
            let piece = filename.substring_char(i, i + 1);
            out.append(piece);
        }
        proof {
            assert(out@ =~= norm_spec(filename@).take(i as int + 1));
        }
        i = i + 1;
    }
    proof {
        assert(out@ =~= norm_spec(filename@));
    }
    out
}

/// Character-by-character string equality (`str` has no specified `==`).
pub fn str_eq(a: &str, b: &str) -> (r: bool)
    ensures
        r == (a@ == b@),
{
    let alen = a.unicode_len();
    let blen = b.unicode_len();
    if alen != blen {
        return false;
    }
    let mut i: usize = 0;
    while i < alen
        invariant
            alen == a@.len(),
            alen == b@.len(),
            i <= alen,
            forall|j: int| 0 <= j < i ==> a@[j] == b@[j],
        decreases alen - i,
    {
        if a.get_char(i) != b.get_char(i) {
            return false;
        }
        i = i + 1;
    }
    proof {
        assert(a@ =~= b@);
    }
    true
}

/// The characters of a string as a vector, for random access.
pub fn chars_vec(s: &str) -> (r: Vec<char>)
    ensures
        r@ == s@,
{
    let n = s.unicode_len();
    let mut v: Vec<char> = Vec::new();
    let mut i: usize = 0;
    while i < n
        invariant
            n == s@.len(),
            i <= n,
            v@ == s@.take(i as int),
        decreases n - i,
    {
        v.push(s.get_char(i));
        proof {
            assert(v@ =~= s@.take(i as int + 1));
        }
        i = i + 1;
    }
    proof {
        assert(v@ =~= s@);
    }
    v
}

/// `needle` occurs in `hay` starting at position `i`.
pub open spec fn matches_at(hay: Seq<char>, needle: Seq<char>, i: int) -> bool {
    0 <= i && i + needle.len() <= hay.len() && (forall|j: int|
        0 <= j < needle.len() ==> hay[i + j] == needle[j])
}

/// `needle` occurs somewhere in `hay`.
pub open spec fn has_substring(hay: Seq<char>, needle: Seq<char>) -> bool {
    exists|i: int| matches_at(hay, needle, i)
}

pub fn contains_chars(hay: &Vec<char>, needle: &Vec<char>) -> (r: bool)
    ensures
        r == has_substring(hay@, needle@),
{
    if needle.len() > hay.len() {
        proof {
            assert(forall|i: int| !matches_at(hay@, needle@, i));
        }
        return false;
    }
    if needle.len() == 0 {
        proof {
            assert(matches_at(hay@, needle@, 0));
        }
        return true;
    }
    let bound = hay.len() - needle.len();
    let mut i: usize = 0;
    while i <= bound
        invariant
            1 <= needle@.len() <= hay@.len(),
            hay@.len() <= usize::MAX,
            bound == hay@.len() - needle@.len(),
            i <= bound + 1,
            forall|k: int| 0 <= k < i ==> !matches_at(hay@, needle@, k),
        decreases bound + 1 - i,
    {
        let mut j: usize = 0;
        let mut ok: bool = true;
        while j < needle.len()
            invariant
                1 <= needle@.len() <= hay@.len(),
                hay@.len() <= usize::MAX,
                i + needle@.len() <= hay@.len(),
                j <= needle@.len(),
                ok ==> forall|t: int| 0 <= t < j ==> hay@[i + t] == needle@[t],
                !ok ==> !matches_at(hay@, needle@, i as int),
            decreases needle@.len() - j,
        {
            if hay[i + j] != needle[j] {
                ok = false;
                j = needle.len();
            } else {
                j = j + 1;
            }
        }
        if ok {
            proof {
                assert(matches_at(hay@, needle@, i as int));
            }
            return true;
        }
        i = i + 1;
    }
    proof {
        assert(forall|k: int| !matches_at(hay@, needle@, k));
    }
    false
}

/// What `str::to_lowercase` returns: a function of the characters alone.
pub uninterp spec fn lower_of(s: Seq<char>) -> Seq<char>;

/// Relies on str::to_lowercase from std: the result depends only on the
/// characters of the input, and an empty input stays empty.
#[verifier::external_body]
pub fn lower(s: &str) -> (r: String)
    ensures
        r@ == lower_of(s@),
        s@.len() == 0 ==> r@.len() == 0,
{
    s.to_lowercase()
}

/// A title matches an exclusion list when its lowercase form contains the
/// lowercase form of some configured substring.
pub open spec fn spec_excluded(title: Seq<char>, excludes: Seq<Seq<char>>) -> bool {
    exists|k: int|
        0 <= k < excludes.len() && has_substring(lower_of(title), lower_of(excludes[k]))
}

pub fn title_excluded(title: &str, excludes: &Vec<String>) -> (r: bool)
    ensures
        r == spec_excluded(title@, excludes.deep_view()),
{
    let lt = lower(title);
    let ltc = chars_vec(lt.as_str());
    let mut k: usize = 0;
    while k < excludes.len()
        invariant
            ltc@ == lower_of(title@),
            forall|k2: int|
                0 <= k2 < k ==> !has_substring(
                    lower_of(title@),
                    lower_of(excludes.deep_view()[k2]),
                ),
            k <= excludes@.len(),
        decreases excludes@.len() - k,
    {
        let lp = lower(excludes[k].as_str());
        let lpc = chars_vec(lp.as_str());
        if contains_chars(&ltc, &lpc) {
            proof {
                assert(excludes.deep_view()[k as int] == excludes@[k as int]@);
                assert(has_substring(lower_of(title@), lower_of(excludes.deep_view()[k as int])));
                assert(spec_excluded(title@, excludes.deep_view()));
            }
            return true;
        }
        k = k + 1;
    }
    false
}

} // verus!
