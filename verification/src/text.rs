//! Character and string helpers shared by the parsing and naming logic.
//!
//! All reasoning is done over `Seq<char>` views; `String` values only enter
//! and leave at the edges through `str_to_chars` and `chars_to_string`.

use vstd::prelude::*;
use vstd::string::StringExecFns;

verus! {

/// An ASCII decimal digit.
pub open spec fn spec_is_digit(c: char) -> bool {
    '0' <= c && c <= '9'
}

pub fn is_digit(c: char) -> (r: bool)
    ensures
        r == spec_is_digit(c),
{
    '0' <= c && c <= '9'
}

/// The character for a single decimal digit value.
pub open spec fn spec_digit_char(d: int) -> char {
    if d == 0 {
        '0'
    } else if d == 1 {
        '1'
    } else if d == 2 {
        '2'
    } else if d == 3 {
        '3'
    } else if d == 4 {
        '4'
    } else if d == 5 {
        '5'
    } else if d == 6 {
        '6'
    } else if d == 7 {
        '7'
    } else if d == 8 {
        '8'
    } else {
        '9'
    }
}

/// The numeric value of a decimal digit character, or 10 for any other character.
pub open spec fn spec_digit_val(c: char) -> int {
    if c == '0' {
        0
    } else if c == '1' {
        1
    } else if c == '2' {
        2
    } else if c == '3' {
        3
    } else if c == '4' {
        4
    } else if c == '5' {
        5
    } else if c == '6' {
        6
    } else if c == '7' {
        7
    } else if c == '8' {
        8
    } else if c == '9' {
        9
    } else {
        10
    }
}

pub fn digit_char(d: u64) -> (c: char)
    requires
        d <= 9,
    ensures
        c == spec_digit_char(d as int),
{
    match d {
        0 => '0',
        1 => '1',
        2 => '2',
        3 => '3',
        4 => '4',
        5 => '5',
        6 => '6',
        7 => '7',
        8 => '8',
        _ => '9',
    }
}

pub fn digit_val(c: char) -> (d: u32)
    requires
        spec_is_digit(c),
    ensures
        d == spec_digit_val(c),
        d <= 9,
{
    match c {
        '0' => 0,
        '1' => 1,
        '2' => 2,
        '3' => 3,
        '4' => 4,
        '5' => 5,
        '6' => 6,
        '7' => 7,
        '8' => 8,
        _ => 9,
    }
}

/// The decimal digit string of a natural number, most significant digit first.
pub open spec fn spec_decimal(n: nat) -> Seq<char>
    decreases n,
{
    if n < 10 {
        seq![spec_digit_char(n as int)]
    } else {
        spec_decimal(n / 10).push(spec_digit_char((n % 10) as int))
    }
}

/// The characters of a string, in order.
pub fn str_to_chars(s: &str) -> (r: Vec<char>)
    ensures
        r@ == s@,
{
    let n = s.unicode_len();
    let mut r: Vec<char> = Vec::new();
    let mut i: usize = 0;
    while i < n
        invariant
            i <= n,
            n == s@.len(),
            r@ == s@.subrange(0, i as int),
        decreases n - i,
    {
        let c = s.get_char(i);
        r.push(c);
        i = i + 1;
        proof {
            assert(r@ =~= s@.subrange(0, i as int));
        }
    }
    proof {
        assert(r@ =~= s@);
    }
    r
}

/// The decimal rendering of a number.
pub fn u64_to_string(n: u64) -> (s: String)
    ensures
        s@ == spec_decimal(n as nat),
{
    let mut digits: Vec<char> = Vec::new();
    let mut m: u64 = n;
    loop
        invariant_except_break
            spec_decimal(n as nat) == spec_decimal(m as nat) + digits@.reverse(),
        ensures
            spec_decimal(n as nat) == digits@.reverse(),
        decreases m,
    {
        let ghost pre = m;
        let ghost predigits = digits@;
        digits.push(digit_char(m % 10));
        m = m / 10;
        proof {
            assert(digits@.reverse() =~= seq![spec_digit_char((pre % 10) as int)]
                + predigits.reverse());
            if m > 0 {
                assert(spec_decimal(pre as nat) == spec_decimal((pre / 10) as nat).push(
                    spec_digit_char((pre % 10) as int),
                ));
                assert(spec_decimal(m as nat) + digits@.reverse() =~= spec_decimal(pre as nat)
                    + predigits.reverse());
            } else {
                assert(pre < 10);
                assert(spec_decimal(pre as nat) =~= seq![spec_digit_char((pre % 10) as int)]);
                assert(digits@.reverse() =~= spec_decimal(pre as nat) + predigits.reverse());
            }
        }
        if m == 0 {
            break;
        }
    }
    let mut out: Vec<char> = Vec::new();
    let mut i: usize = digits.len();
    while i > 0
        invariant
            i <= digits@.len(),
            out@ == digits@.reverse().subrange(0, digits@.len() - i),
        decreases i,
    {
        i = i - 1;
        out.push(digits[i]);
        proof {
            assert(digits@.reverse()[digits@.len() - i - 1] == digits@[i as int]);
            assert(out@ =~= digits@.reverse().subrange(0, digits@.len() - i));
        }
    }
    proof {
        assert(out@ =~= digits@.reverse());
    }
    crate::foreign::chars_to_string(&out)
}

pub fn u32_to_string(n: u32) -> (s: String)
    ensures
        s@ == spec_decimal(n as nat),
{
    u64_to_string(n as u64)
}

/// Whether `s` ends with `suffix`.
pub open spec fn spec_ends_with(s: Seq<char>, suffix: Seq<char>) -> bool {
    s.len() >= suffix.len() && s.subrange(s.len() - suffix.len(), s.len() as int) == suffix
}

pub fn chars_end_with(s: &Vec<char>, suffix: &Vec<char>) -> (r: bool)
    ensures
        r == spec_ends_with(s@, suffix@),
{
    let n = s.len();
    let m = suffix.len();
    if n < m {
        assert(!spec_ends_with(s@, suffix@));
        return false;
    }
    let mut i: usize = 0;
    while i < m
        invariant
            i <= m,
            m <= n,
            n == s@.len(),
            m == suffix@.len(),
            forall|k: int| 0 <= k < i ==> s@[n - m + k] == suffix@[k],
        decreases m - i,
    {
        if s[n - m + i] != suffix[i] {
            proof {
                assert(s@.subrange(n - m, n as int)[i as int] != suffix@[i as int]);
            }
            return false;
        }
        i = i + 1;
    }
    proof {
        assert(s@.subrange(n - m, n as int) =~= suffix@);
    }
    true
}

/// Whether `pat` occurs in `s` starting at position `i`.
pub open spec fn spec_match_at(s: Seq<char>, pat: Seq<char>, i: int) -> bool {
    0 <= i && i + pat.len() <= s.len() && s.subrange(i, i + pat.len()) == pat
}

/// The first position where `pat` occurs in `s`, if any.
pub open spec fn spec_find(s: Seq<char>, pat: Seq<char>) -> Option<int>
    decreases s.len(),
    via spec_find_decreases
{
    if s.len() < pat.len() {
        None
    } else if s.take(pat.len() as int) == pat {
        Some(0)
    } else {
        match spec_find(s.skip(1), pat) {
            Some(j) => Some(j + 1),
            None => None,
        }
    }
}

#[via_fn]
proof fn spec_find_decreases(s: Seq<char>, pat: Seq<char>) {
    if s.len() >= pat.len() && s.take(pat.len() as int) != pat {
        if pat.len() == 0 {
            assert(s.take(0) =~= pat);
        }
    }
}

/// In the searched text, a pattern occurs one position later than it
/// occurs in the text with its first character dropped.
proof fn lemma_match_at_shift(s: Seq<char>, pat: Seq<char>, j: int)
    requires
        1 <= j,
        s.len() >= 1,
    ensures
        spec_match_at(s, pat, j) == spec_match_at(s.skip(1), pat, j - 1),
{
    if j + pat.len() <= s.len() {
        assert(s.skip(1).subrange(j - 1, j - 1 + pat.len()) =~= s.subrange(j, j + pat.len()));
    }
}

/// `spec_find` names the first occurrence: a hit matches, everything
/// before it does not, and a miss means no position matches.
pub proof fn lemma_find_first(s: Seq<char>, pat: Seq<char>)
    ensures
        match spec_find(s, pat) {
            Some(i) => spec_match_at(s, pat, i) && forall|j: int|
                0 <= j < i ==> !spec_match_at(s, pat, j),
            None => forall|j: int| !spec_match_at(s, pat, j),
        },
    decreases s.len(),
{
    if s.len() < pat.len() {
        assert forall|j: int| !spec_match_at(s, pat, j) by {
            if 0 <= j && j + pat.len() <= s.len() {
                assert(pat.len() <= s.len());
            }
        }
    } else if s.take(pat.len() as int) == pat {
        assert(s.subrange(0, pat.len() as int) =~= s.take(pat.len() as int));
    } else {
        if pat.len() == 0 {
            assert(s.take(0) =~= pat);
        }
        lemma_find_first(s.skip(1), pat);
        assert(!spec_match_at(s, pat, 0)) by {
            assert(s.subrange(0, pat.len() as int) =~= s.take(pat.len() as int));
        }
        match spec_find(s.skip(1), pat) {
            Some(j) => {
                lemma_match_at_shift(s, pat, j + 1);
                assert(spec_match_at(s, pat, j + 1));
                assert forall|k: int| 0 <= k < j + 1 implies !spec_match_at(s, pat, k) by {
                    if k >= 1 {
                        lemma_match_at_shift(s, pat, k);
                    }
                }
            },
            None => {
                assert forall|k: int| !spec_match_at(s, pat, k) by {
                    if k >= 1 {
                        lemma_match_at_shift(s, pat, k);
                    }
                }
            },
        }
    }
}

/// Finds the first occurrence of `pat` in `s`.
pub fn find_sub(s: &Vec<char>, pat: &Vec<char>) -> (r: Option<usize>)
    ensures
        match (r, spec_find(s@, pat@)) {
            (Some(a), Some(b)) => a as int == b && a + pat@.len() <= s@.len(),
            (None, None) => true,
            _ => false,
        },
{
    proof {
        lemma_find_first(s@, pat@);
    }
    if s.len() < pat.len() {
        return None;
    }
    if pat.len() == 0 {
        proof {
            assert(s@.take(0) =~= pat@);
        }
        return Some(0);
    }
    let last_start = s.len() - pat.len();
    let mut i: usize = 0;
    while i <= last_start
        invariant
            i <= last_start + 1,
            last_start == s@.len() - pat@.len(),
            pat@.len() >= 1,
            s@.len() <= usize::MAX,
            forall|j: int| 0 <= j < i ==> !spec_match_at(s@, pat@, j),
        decreases last_start - i + 1,
    {
        let mut k: usize = 0;
        while k < pat.len() && s[i + k] == pat[k]
            invariant
                k <= pat@.len(),
                i + pat@.len() <= s@.len(),
                s@.len() <= usize::MAX,
                forall|j: int| 0 <= j < k ==> s@[i + j] == pat@[j],
            decreases pat@.len() - k,
        {
            k = k + 1;
        }
        if k == pat.len() {
            proof {
                lemma_find_first(s@, pat@);
                assert(s@.subrange(i as int, i + pat@.len()) =~= pat@);
                assert(spec_match_at(s@, pat@, i as int));
                match spec_find(s@, pat@) {
                    Some(b) => {
                        if b < i {
                            assert(!spec_match_at(s@, pat@, b));
                        }
                        if b > i {
                            assert(!spec_match_at(s@, pat@, i as int));
                        }
                    },
                    None => {
                        assert(!spec_match_at(s@, pat@, i as int));
                    },
                }
            }
            return Some(i);
        }
        proof {
            assert(k < pat@.len() && s@[i + k] != pat@[k as int]);
            if spec_match_at(s@, pat@, i as int) {
                assert(s@.subrange(i as int, i + pat@.len())[k as int] == s@[i + k]);
            }
        }
        i = i + 1;
    }
    proof {
        lemma_find_first(s@, pat@);
        assert forall|j: int| !spec_match_at(s@, pat@, j) by {
            if 0 <= j && j + pat@.len() <= s@.len() {
                assert(j < i);
            }
        }
        match spec_find(s@, pat@) {
            Some(b) => {
                assert(!spec_match_at(s@, pat@, b));
            },
            None => {},
        }
    }
    None
}

/// The last position where character `c` occurs in `s`, if any.
pub open spec fn spec_rfind(s: Seq<char>, c: char) -> Option<int>
    decreases s.len(),
{
    if s.len() == 0 {
        None
    } else if s[s.len() - 1] == c {
        Some(s.len() - 1)
    } else {
        spec_rfind(s.drop_last(), c)
    }
}

/// A copy of the characters between two positions.
pub fn sub_vec(s: &Vec<char>, a: usize, b: usize) -> (r: Vec<char>)
    requires
        a <= b <= s@.len(),
    ensures
        r@ == s@.subrange(a as int, b as int),
{
    let mut r: Vec<char> = Vec::new();
    let mut i: usize = a;
    while i < b
        invariant
            a <= i <= b <= s@.len(),
            r@ == s@.subrange(a as int, i as int),
        decreases b - i,
    {
        r.push(s[i]);
        i = i + 1;
        proof {
            assert(r@ =~= s@.subrange(a as int, i as int));
        }
    }
    r
}

/// The first position where character `c` occurs in `s`, if any.
pub open spec fn spec_find_char(s: Seq<char>, c: char) -> Option<int>
    decreases s.len(),
{
    if s.len() == 0 {
        None
    } else if s[0] == c {
        Some(0)
    } else {
        match spec_find_char(s.skip(1), c) {
            Some(j) => Some(j + 1),
            None => None,
        }
    }
}

/// `spec_find_char` names the first occurrence: a hit carries the
/// character, nothing before it does, and a miss means it never occurs.
pub proof fn lemma_find_char_first(s: Seq<char>, c: char)
    ensures
        match spec_find_char(s, c) {
            Some(i) => 0 <= i < s.len() && s[i] == c && forall|j: int| 0 <= j < i ==> s[j] != c,
            None => forall|j: int| 0 <= j < s.len() ==> s[j] != c,
        },
    decreases s.len(),
{
    if s.len() > 0 && s[0] != c {
        lemma_find_char_first(s.skip(1), c);
        assert forall|j: int| 1 <= j < s.len() implies s.skip(1)[j - 1] == s[j] by {}
    }
}

/// `spec_rfind` names the last occurrence: a hit carries the character,
/// nothing after it does, and a miss means the character never occurs.
pub proof fn lemma_rfind_last(s: Seq<char>, c: char)
    ensures
        match spec_rfind(s, c) {
            Some(i) => 0 <= i < s.len() && s[i] == c && forall|j: int|
                i < j < s.len() ==> s[j] != c,
            None => forall|j: int| 0 <= j < s.len() ==> s[j] != c,
        },
    decreases s.len(),
{
    if s.len() > 0 && s[s.len() - 1] != c {
        lemma_rfind_last(s.drop_last(), c);
        assert forall|j: int| 0 <= j < s.len() - 1 implies s.drop_last()[j] == s[j] by {}
    }
}

pub fn find_last(chars: &Vec<char>, c: char) -> (r: Option<usize>)
    ensures
        match (r, spec_rfind(chars@, c)) {
            (Some(a), Some(b)) => a as int == b && a < chars@.len(),
            (None, None) => true,
            _ => false,
        },
{
    let mut i: usize = chars.len();
    proof {
        assert(chars@.take(i as int) =~= chars@);
    }
    while i > 0
        invariant
            i <= chars@.len(),
            spec_rfind(chars@, c) == spec_rfind(chars@.take(i as int), c),
        decreases i,
    {
        i = i - 1;
        proof {
            assert(chars@.take(i + 1).drop_last() =~= chars@.take(i as int));
            assert(chars@.take(i + 1)[i as int] == chars@[i as int]);
        }
        if chars[i] == c {
            return Some(i);
        }
    }
    proof {
        assert(chars@.take(0).len() == 0);
    }
    None
}

/// A slash-joined path.
pub open spec fn spec_join(dir: Seq<char>, name: Seq<char>) -> Seq<char> {
    dir + "/"@ + name
}

pub fn join_path(dir: &str, name: &str) -> (r: String)
    ensures
        r@ == spec_join(dir@, name@),
{
    dir.to_owned().concat("/").concat(name)
}

/// Characters that are replaced in directory names because common file
/// systems refuse them, plus the space character.
pub open spec fn spec_fs_unsafe(c: char) -> bool {
    c == ' ' || c == '/' || c == '\\' || c == ':' || c == '*' || c == '?' || c == '"' || c == '<'
        || c == '>' || c == '|'
}

pub fn fs_unsafe(c: char) -> (r: bool)
    ensures
        r == spec_fs_unsafe(c),
{
    c == ' ' || c == '/' || c == '\\' || c == ':' || c == '*' || c == '?' || c == '"' || c == '<'
        || c == '>' || c == '|'
}

/// A name with every file-system-unsafe character replaced by an underscore.
pub open spec fn spec_sanitize(s: Seq<char>) -> Seq<char> {
    s.map(|i: int, c: char| if spec_fs_unsafe(c) { '_' } else { c })
}

pub fn sanitize_name(s: &str) -> (r: Vec<char>)
    ensures
        r@ == spec_sanitize(s@),
{
    let chars = str_to_chars(s);
    let mut r: Vec<char> = Vec::new();
    let mut i: usize = 0;
    while i < chars.len()
        invariant
            i <= chars@.len(),
            chars@ == s@,
            r@ == spec_sanitize(s@.subrange(0, i as int)),
        decreases chars@.len() - i,
    {
        let c = chars[i];
        if fs_unsafe(c) {
            r.push('_');
        } else {
            r.push(c);
        }
        i = i + 1;
        proof {
            assert(r@ =~= spec_sanitize(s@.subrange(0, i as int)));
        }
    }
    proof {
        assert(s@.subrange(0, s@.len() as int) =~= s@);
    }
    r
}

} // verus!
