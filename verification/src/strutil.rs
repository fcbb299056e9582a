//! Verified string utilities: containment, prefix tests, trimming and
//! decimal rendering, all specified over `Seq<char>` views.

use vstd::prelude::*;
use vstd::string::StrSliceExecFns;
use vstd::string::StringExecFns;

verus! {

/// `n` occurs in `h` starting at index `i`.
pub open spec fn matches_at(h: Seq<char>, n: Seq<char>, i: int) -> bool {
    0 <= i && i + n.len() <= h.len() && h.subrange(i, i + n.len() as int) == n
}

/// Substring containment over character sequences.
pub open spec fn contains_seq(h: Seq<char>, n: Seq<char>) -> bool {
    exists|i: int| matches_at(h, n, i)
}

/// `h` begins with `n`.
pub open spec fn starts_with_seq(h: Seq<char>, n: Seq<char>) -> bool {
    n.len() <= h.len() && h.subrange(0, n.len() as int) == n
}

/// The whitespace characters this library recognizes when scanning lines:
/// the characters with the Unicode `White_Space` property.
pub open spec fn is_ws_char(c: char) -> bool {
    ||| c == '\u{0009}'
    ||| c == '\u{000A}'
    ||| c == '\u{000B}'
    ||| c == '\u{000C}'
    ||| c == '\u{000D}'
    ||| c == '\u{0020}'
    ||| c == '\u{0085}'
    ||| c == '\u{00A0}'
    ||| c == '\u{1680}'
    ||| c == '\u{2000}'
    ||| c == '\u{2001}'
    ||| c == '\u{2002}'
    ||| c == '\u{2003}'
    ||| c == '\u{2004}'
    ||| c == '\u{2005}'
    ||| c == '\u{2006}'
    ||| c == '\u{2007}'
    ||| c == '\u{2008}'
    ||| c == '\u{2009}'
    ||| c == '\u{200A}'
    ||| c == '\u{2028}'
    ||| c == '\u{2029}'
    ||| c == '\u{202F}'
    ||| c == '\u{205F}'
    ||| c == '\u{3000}'
}

/// Executable form of `is_ws_char`.
pub fn ws_char(c: char) -> (r: bool)
    ensures
        r == is_ws_char(c),
{
    match c {
        '\u{0009}' | '\u{000A}' | '\u{000B}' | '\u{000C}' | '\u{000D}' | '\u{0020}'
        | '\u{0085}' | '\u{00A0}' | '\u{1680}' | '\u{2000}' | '\u{2001}' | '\u{2002}'
        | '\u{2003}' | '\u{2004}' | '\u{2005}' | '\u{2006}' | '\u{2007}' | '\u{2008}'
        | '\u{2009}' | '\u{200A}' | '\u{2028}' | '\u{2029}' | '\u{202F}' | '\u{205F}'
        | '\u{3000}' => true,
        _ => false,
    }
}

/// Whether `n` occurs in `h` at exactly index `i`.
fn match_at(h: &str, n: &str, i: usize) -> (r: bool)
    requires
        i + n@.len() <= h@.len(),
    ensures
        r == matches_at(h@, n@, i as int),
{
    let hl = h.unicode_len();
    let nl = n.unicode_len();
    let mut j: usize = 0;
    while j < nl
        invariant
            j <= nl,
            hl == h@.len(),
            nl == n@.len(),
            i + nl <= hl,
            forall|k: int| 0 <= k < j ==> h@[i + k] == n@[k],
        decreases nl - j,
    {
        if h.get_char(i + j) != n.get_char(j) {
            assert(h@.subrange(i as int, i + nl as int)[j as int] != n@[j as int]);
            return false;
        }
        j += 1;
    }
    assert(h@.subrange(i as int, i + nl as int) =~= n@);
    true
}

/// Substring search: does `n` occur anywhere in `h`?
pub fn str_contains(h: &str, n: &str) -> (r: bool)
    ensures
        r == contains_seq(h@, n@),
{
    let hl = h.unicode_len();
    let nl = n.unicode_len();
    if nl > hl {
        assert(forall|i: int| !matches_at(h@, n@, i));
        return false;
    }
    if nl == 0 {
        assert(h@.subrange(0, 0) =~= n@);
        assert(matches_at(h@, n@, 0));
        return true;
    }
    let mut i: usize = 0;
    while i <= hl - nl
        invariant
            0 < nl <= hl,
            hl == h@.len(),
            nl == n@.len(),
            i <= hl - nl + 1,
            forall|k: int| 0 <= k < i ==> !matches_at(h@, n@, k),
        decreases hl - nl - i + 1,
    {
        if match_at(h, n, i) {
            return true;
        }
        i += 1;
    }
    assert(forall|k: int| !matches_at(h@, n@, k));
    false
}

/// Prefix test: does `h` begin with `n`?
pub fn str_starts_with(h: &str, n: &str) -> (r: bool)
    ensures
        r == starts_with_seq(h@, n@),
{
    let hl = h.unicode_len();
    let nl = n.unicode_len();
    if nl > hl {
        return false;
    }
    match_at(h, n, 0)
}

/// Character-for-character string equality.
pub fn str_eq(a: &str, b: &str) -> (r: bool)
    ensures
        r == (a@ == b@),
{
    let al = a.unicode_len();
    let bl = b.unicode_len();
    if al != bl {
        return false;
    }
    assert(a@.subrange(0, b@.len() as int) =~= a@);
    match_at(a, b, 0)
}

/// Index of the first character not satisfying `is_ws_char`, scanning from
/// `i`; `s.len()` when the rest is all whitespace.
pub open spec fn first_non_ws(s: Seq<char>, i: int) -> int
    decreases s.len() - i,
{
    if i < 0 || i >= s.len() {
        s.len() as int
    } else if !is_ws_char(s[i]) {
        i
    } else {
        first_non_ws(s, i + 1)
    }
}

/// Greatest index `j <= i` with a non-whitespace character, or `-1`.
pub open spec fn last_non_ws(s: Seq<char>, i: int) -> int
    decreases i + 1,
{
    if i < 0 || i >= s.len() {
        -1
    } else if !is_ws_char(s[i]) {
        i
    } else {
        last_non_ws(s, i - 1)
    }
}

/// `s` with leading and trailing whitespace removed.
pub open spec fn trim_spec(s: Seq<char>) -> Seq<char> {
    let a = first_non_ws(s, 0);
    if a == s.len() {
        Seq::<char>::empty()
    } else {
        s.subrange(a, last_non_ws(s, s.len() - 1) + 1)
    }
}

proof fn lemma_first_non_ws_not_ws(s: Seq<char>, i: int)
    requires
        0 <= i <= s.len(),
        first_non_ws(s, i) < s.len(),
    ensures
        i <= first_non_ws(s, i),
        !is_ws_char(s[first_non_ws(s, i)]),
    decreases s.len() - i,
{
    if i < s.len() && is_ws_char(s[i]) {
        lemma_first_non_ws_not_ws(s, i + 1);
    }
}

/// Remove leading and trailing whitespace.
pub fn str_trim(s: &str) -> (r: &str)
    ensures
        r@ == trim_spec(s@),
{
    let len = s.unicode_len();
    let mut a: usize = 0;
    while a < len && ws_char(s.get_char(a))
        invariant
            a <= len,
            len == s@.len(),
            first_non_ws(s@, 0) == first_non_ws(s@, a as int),
        decreases len - a,
    {
        a += 1;
    }
    if a == len {
        assert(first_non_ws(s@, 0) == s@.len());
        let r = s.substring_char(len, len);
        assert(r@ =~= trim_spec(s@));
        return r;
    }
    assert(first_non_ws(s@, 0) == a as int);
    proof {
        lemma_first_non_ws_not_ws(s@, 0);
    }
    let mut b: usize = len - 1;
    while ws_char(s.get_char(b))
        invariant
            a <= b < len,
            len == s@.len(),
            first_non_ws(s@, 0) == a as int,
            !is_ws_char(s@[a as int]),
            last_non_ws(s@, len - 1) == last_non_ws(s@, b as int),
        decreases b,
    {
        assert(b != a);
        b -= 1;
    }
    assert(last_non_ws(s@, len - 1) == b as int);
    s.substring_char(a, b + 1)
}

/// Index of the first occurrence of `c` in `s`, or `-1`.
pub open spec fn first_index_of(s: Seq<char>, c: char) -> int
    decreases s.len(),
{
    if s.len() == 0 {
        -1
    } else if s[0] == c {
        0
    } else {
        let r = first_index_of(s.skip(1), c);
        if r < 0 {
            -1
        } else {
            r + 1
        }
    }
}

/// Index of the last occurrence of `c` in `s`, or `-1`.
pub open spec fn last_index_of(s: Seq<char>, c: char) -> int
    decreases s.len(),
{
    if s.len() == 0 {
        -1
    } else if s[s.len() - 1] == c {
        s.len() - 1
    } else {
        last_index_of(s.drop_last(), c)
    }
}

proof fn lemma_first_index_of_range(s: Seq<char>, c: char)
    ensures
        -1 <= first_index_of(s, c) < s.len(),
        first_index_of(s, c) >= 0 ==> s[first_index_of(s, c)] == c,
        first_index_of(s, c) >= 0 ==> forall|k: int|
            0 <= k < first_index_of(s, c) ==> s[k] != c,
        first_index_of(s, c) < 0 ==> forall|k: int| 0 <= k < s.len() ==> s[k] != c,
    decreases s.len(),
{
    if s.len() > 0 && s[0] != c {
        lemma_first_index_of_range(s.skip(1), c);
        assert(forall|k: int| 1 <= k < s.len() ==> s[k] == s.skip(1)[k - 1]);
    }
}

proof fn lemma_last_index_of_range(s: Seq<char>, c: char)
    ensures
        -1 <= last_index_of(s, c) < s.len(),
        last_index_of(s, c) >= 0 ==> s[last_index_of(s, c)] == c,
        forall|k: int| last_index_of(s, c) < k < s.len() ==> s[k] != c,
    decreases s.len(),
{
    if s.len() > 0 && s[s.len() - 1] != c {
        lemma_last_index_of_range(s.drop_last(), c);
        assert(forall|k: int| 0 <= k < s.len() - 1 ==> s[k] == s.drop_last()[k]);
    }
}

/// Find the first occurrence of the character `c`.
pub fn find_char(s: &str, c: char) -> (r: Option<usize>)
    ensures
        match r {
            Some(i) => first_index_of(s@, c) == i as int && i < s@.len() && s@[i as int] == c,
            None => first_index_of(s@, c) < 0,
        },
{
    let len = s.unicode_len();
    let mut i: usize = 0;
    proof {
        lemma_first_index_of_range(s@, c);
    }
    while i < len
        invariant
            i <= len,
            len == s@.len(),
            -1 <= first_index_of(s@, c) < s@.len(),
            first_index_of(s@, c) >= 0 ==> s@[first_index_of(s@, c)] == c,
            first_index_of(s@, c) >= 0 ==> forall|k: int|
                0 <= k < first_index_of(s@, c) ==> s@[k] != c,
            first_index_of(s@, c) < 0 ==> forall|k: int| 0 <= k < s@.len() ==> s@[k] != c,
            forall|k: int| 0 <= k < i ==> s@[k] != c,
        decreases len - i,
    {
        if s.get_char(i) == c {
            return Some(i);
        }
        i += 1;
    }
    None
}

/// The text after the last `/`, or all of `s` when it has no `/`.
pub open spec fn last_segment(s: Seq<char>) -> Seq<char> {
    s.subrange(last_index_of(s, '/') + 1, s.len() as int)
}

/// Extract the final path segment of a link.
pub fn last_path_segment(s: &str) -> (r: &str)
    ensures
        r@ == last_segment(s@),
{
    let len = s.unicode_len();
    proof {
        lemma_last_index_of_range(s@, '/');
    }
    if len == 0 {
        let r = s.substring_char(0, 0);
        assert(r@ =~= last_segment(s@));
        return r;
    }
    let mut b: usize = len;
    while b > 0 && s.get_char(b - 1) != '/'
        invariant
            b <= len,
            len == s@.len(),
            -1 <= last_index_of(s@, '/') < s@.len(),
            last_index_of(s@, '/') >= 0 ==> s@[last_index_of(s@, '/')] == '/',
            forall|k: int| last_index_of(s@, '/') < k < s@.len() ==> s@[k] != '/',
            forall|k: int| b <= k < len ==> s@[k] != '/',
            last_index_of(s@, '/') < b,
        decreases b,
    {
        b -= 1;
    }
    assert(last_index_of(s@, '/') == b - 1);
    s.substring_char(b, len)
}

/// `s` with every occurrence of `p` removed, scanning left to right.
pub open spec fn remove_occ(s: Seq<char>, p: Seq<char>) -> Seq<char>
    decreases s.len(),
{
    if p.len() == 0 || s.len() < p.len() {
        s
    } else if s.subrange(0, p.len() as int) == p {
        remove_occ(s.skip(p.len() as int), p)
    } else {
        seq![s[0]] + remove_occ(s.skip(1), p)
    }
}

/// Remove every occurrence of `p` from `s`, scanning left to right.
pub fn remove_all(s: &str, p: &str) -> (r: String)
    ensures
        r@ == remove_occ(s@, p@),
{
    let sl = s.unicode_len();
    let pl = p.unicode_len();
    if pl == 0 {
        return s.to_owned();
    }
    let mut out = String::new();
    let mut i: usize = 0;
    proof {
        assert(s@.skip(0) =~= s@);
        assert(Seq::<char>::empty() + remove_occ(s@, p@) =~= remove_occ(s@, p@));
    }
    while i < sl
        invariant
            i <= sl,
            sl == s@.len(),
            pl == p@.len(),
            pl > 0,
            remove_occ(s@, p@) == out@ + remove_occ(s@.skip(i as int), p@),
        decreases sl - i,
    {
        let rest_ghost = Ghost(s@.skip(i as int));
        if pl <= sl - i && match_at(s, p, i) {
            proof {
                assert(rest_ghost@.subrange(0, pl as int) =~= s@.subrange(
                    i as int,
                    i + pl as int,
                ));
                assert(rest_ghost@.skip(pl as int) =~= s@.skip(i + pl as int));
            }
            i += pl;
        } else {
            proof {
                if rest_ghost@.len() >= pl {
                    assert(rest_ghost@.subrange(0, pl as int) =~= s@.subrange(
                        i as int,
                        i + pl as int,
                    ));
                }
                assert(rest_ghost@.skip(1) =~= s@.skip(i + 1));
                assert(seq![s@[i as int]] + s@.skip(i + 1) =~= rest_ghost@);
            }
            let piece = s.substring_char(i, i + 1);
            proof {
                assert(piece@ =~= seq![s@[i as int]]);
                assert(out@ + (piece@ + remove_occ(s@.skip(i + 1), p@)) =~= (out@ + piece@)
                    + remove_occ(s@.skip(i + 1), p@));
            }
            out.append(piece);
            i += 1;
        }
    }
    proof {
        assert(s@.skip(sl as int) =~= Seq::<char>::empty());
        assert(out@ + Seq::<char>::empty() =~= out@);
    }
    out
}

/// The character for one decimal digit.
pub open spec fn digit_char(d: nat) -> char {
    if d == 0 {
        '0'
    } else if d == 1 {
        '1'
    } else if d == 2 {
        '2'
    } else if d == 3 {
        '3'
    } else if d == 4 {
        '4'
    } else if d == 5 {
        '5'
    } else if d == 6 {
        '6'
    } else if d == 7 {
        '7'
    } else if d == 8 {
        '8'
    } else {
        '9'
    }
}

/// Decimal digits of `n`, most significant first.
pub open spec fn dec_digits(n: nat) -> Seq<char>
    decreases n,
{
    if n < 10 {
        seq![digit_char(n)]
    } else {
        dec_digits(n / 10).push(digit_char(n % 10))
    }
}

fn digit_str(d: u64) -> (r: &'static str)
    requires
        d < 10,
    ensures
        r@ == seq![digit_char(d as nat)],
{
    proof {
        reveal_strlit("0");
        reveal_strlit("1");
        reveal_strlit("2");
        reveal_strlit("3");
        reveal_strlit("4");
        reveal_strlit("5");
        reveal_strlit("6");
        reveal_strlit("7");
        reveal_strlit("8");
        reveal_strlit("9");
    }
    let r = match d {
        0 => "0",
        1 => "1",
        2 => "2",
        3 => "3",
        4 => "4",
        5 => "5",
        6 => "6",
        7 => "7",
        8 => "8",
        _ => "9",
    };
    assert(r@ =~= seq![digit_char(d as nat)]);
    r
}

/// Render `n` in decimal.
pub fn u64_to_string(n: u64) -> (r: String)
    ensures
        r@ == dec_digits(n as nat),
    decreases n,
{
    if n < 10 {
        digit_str(n).to_owned()
    } else {
        let mut r = u64_to_string(n / 10);
        r.append(digit_str(n % 10));
        proof {
            assert(dec_digits((n / 10) as nat) + seq![digit_char((n % 10) as nat)]
                =~= dec_digits(n as nat));
        }
        r
    }
}

} // verus!
