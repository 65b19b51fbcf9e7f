//! Character-level text operations shared by the whole library.
//!
//! Strings are reasoned about through their view, the sequence of their
//! Unicode scalar values. Unicode case mapping, Unicode character classes,
//! whitespace trimming and path decomposition come from the standard library
//! and are named here rather than restated.
use vstd::prelude::*;

verus! {

broadcast use vstd::string::group_string_axioms;

/// First character of the lowercase mapping of `c`, as `char::to_lowercase` yields it.
pub uninterp spec fn lower_char_spec(c: char) -> char;

/// Whether `c` is alphabetic or numeric in the Unicode sense (`char::is_alphanumeric`).
pub uninterp spec fn alnum_spec(c: char) -> bool;

/// The full lowercase form of a string (`str::to_lowercase`).
pub uninterp spec fn lower_str_spec(s: Seq<char>) -> Seq<char>;

/// A string without its leading and trailing Unicode whitespace (`str::trim`).
pub uninterp spec fn trim_spec(s: Seq<char>) -> Seq<char>;

/// The last component of a path, when it has one that is valid text
/// (`Path::file_name` followed by `OsStr::to_str`).
pub uninterp spec fn file_name_spec(p: Seq<char>) -> Option<Seq<char>>;

/// The path without its last component (`Path::parent`).
pub uninterp spec fn parent_spec(p: Seq<char>) -> Option<Seq<char>>;

/// Calls `char::to_lowercase` and keeps the first character it yields. The
/// contract names the result; for ASCII it states the documented mapping:
/// `A`..`Z` become `a`..`z`, other ASCII characters stay as they are.
#[verifier::external_body]
pub(crate) fn lower_char(c: char) -> (r: char)
    ensures
        r == lower_char_spec(c),
        'A' <= c <= 'Z' ==> r as u32 == c as u32 + 32,
        (c as u32) < 128 && !('A' <= c <= 'Z') ==> r == c,
{
    c.to_lowercase().next().unwrap_or(c)
}

/// Calls `char::is_alphanumeric`; the contract names the answer and states
/// it for ASCII, where only letters and digits are alphanumeric.
#[verifier::external_body]
pub(crate) fn is_alnum(c: char) -> (r: bool)
    ensures
        r == alnum_spec(c),
        (c as u32) < 128 ==> r == ('a' <= c <= 'z' || 'A' <= c <= 'Z' || '0' <= c <= '9'),
{
    c.is_alphanumeric()
}

/// Calls `str::to_lowercase`; the contract names the result.
#[verifier::external_body]
pub(crate) fn lower_str(s: &str) -> (r: String)
    ensures
        r@ == lower_str_spec(s@),
{
    s.to_lowercase()
}

/// Calls `str::trim` and copies the result; the contract names the result.
#[verifier::external_body]
pub(crate) fn trim_str(s: &str) -> (r: String)
    ensures
        r@ == trim_spec(s@),
{
    s.trim().to_string()
}

/// Calls `Path::file_name` on `p` and keeps the component when it is valid
/// text; the contract names the result.
#[verifier::external_body]
pub(crate) fn path_file_name(p: &str) -> (r: Option<String>)
    ensures
        r matches Some(n) ==> file_name_spec(p@) == Some(n@),
        r is None ==> file_name_spec(p@) is None,
{
    std::path::Path::new(p).file_name().and_then(|n| n.to_str()).map(|n| n.to_string())
}

/// Calls `Path::parent` on `p`; the contract names the result. The parent of a
/// path given as text is a prefix of that text, so it converts back without loss.
#[verifier::external_body]
pub(crate) fn path_parent(p: &str) -> (r: Option<String>)
    ensures
        r matches Some(q) ==> parent_spec(p@) == Some(q@),
        r is None ==> parent_spec(p@) is None,
{
    std::path::Path::new(p).parent().map(|q| q.to_string_lossy().into_owned())
}

/// Calls `String::push`: the character is appended.
#[verifier::external_body]
pub(crate) fn push_char(s: &mut String, c: char)
    ensures
        final(s)@ == old(s)@.push(c),
{
    s.push(c);
}

/// Calls `String::pop`: the last character is removed and returned, if any.
#[verifier::external_body]
pub(crate) fn pop_char(s: &mut String) -> (r: Option<char>)
    ensures
        old(s)@.len() == 0 ==> r is None && final(s)@ == old(s)@,
        old(s)@.len() > 0 ==> r == Some(old(s)@.last()) && final(s)@ == old(s)@.drop_last(),
{
    s.pop()
}

/// Calls `String::clear`: the string becomes empty.
#[verifier::external_body]
pub(crate) fn clear_string(s: &mut String)
    ensures
        final(s)@ == Seq::<char>::empty(),
{
    s.clear();
}

// ---------------------------------------------------------------------
// Mathematical definitions
// ---------------------------------------------------------------------
/// `p` is a prefix of `s`.
pub open spec fn starts_with(s: Seq<char>, p: Seq<char>) -> bool {
    p.len() <= s.len() && s.subrange(0, p.len() as int) == p
}

/// `s` without the prefix `p`, when `s` starts with `p` (`str::strip_prefix`).
pub open spec fn strip_prefix_spec(s: Seq<char>, p: Seq<char>) -> Option<Seq<char>> {
    if starts_with(s, p) {
        Some(s.subrange(p.len() as int, s.len() as int))
    } else {
        None
    }
}

/// `s` without the prefix `p` if it has it, else `s` itself.
pub open spec fn strip_or_keep(s: Seq<char>, p: Seq<char>) -> Seq<char> {
    match strip_prefix_spec(s, p) {
        Some(r) => r,
        None => s,
    }
}

/// `n` occurs in `s` starting at position `i`.
pub open spec fn occurs_at(s: Seq<char>, n: Seq<char>, i: int) -> bool {
    0 <= i && i + n.len() <= s.len() && s.subrange(i, i + n.len()) == n
}

/// `n` occurs somewhere in `s` (`str::contains` with a string pattern).
pub open spec fn contains_spec(s: Seq<char>, n: Seq<char>) -> bool {
    exists|i: int| occurs_at(s, n, i)
}

/// `s` with every trailing `c` removed (`str::trim_end_matches` with a char).
pub open spec fn trim_end_spec(s: Seq<char>, c: char) -> Seq<char>
    decreases s.len(),
{
    if s.len() > 0 && s.last() == c {
        trim_end_spec(s.drop_last(), c)
    } else {
        s
    }
}

/// `s` with every leading `c` removed (`str::trim_start_matches` with a char).
pub open spec fn trim_start_spec(s: Seq<char>, c: char) -> Seq<char>
    decreases s.len(),
{
    if s.len() > 0 && s[0] == c {
        trim_start_spec(s.drop_first(), c)
    } else {
        s
    }
}

/// Position of the last `c` in `s` (`str::rfind` with a char, counted in chars).
pub open spec fn last_index_spec(s: Seq<char>, c: char) -> Option<int>
    decreases s.len(),
{
    if s.len() == 0 {
        None
    } else if s.last() == c {
        Some(s.len() - 1)
    } else {
        last_index_spec(s.drop_last(), c)
    }
}

/// Strict lexicographic order on character sequences by code point, which is
/// the order of `str`'s `Ord` (UTF-8 preserves code point order).
pub open spec fn seq_less(a: Seq<char>, b: Seq<char>) -> bool
    decreases a.len(),
{
    if a.len() == 0 {
        b.len() > 0
    } else if b.len() == 0 {
        false
    } else if a[0] != b[0] {
        a[0] < b[0]
    } else {
        seq_less(a.drop_first(), b.drop_first())
    }
}

/// Decimal digit character of `d < 10`.
pub open spec fn digit_char(d: nat) -> char {
    ((48 + d) as u8) as char
}

/// Decimal rendering of a natural number, as `Display` writes integers.
pub open spec fn decimal(n: nat) -> Seq<char>
    decreases n,
{
    if n < 10 {
        seq![digit_char(n)]
    } else {
        decimal(n / 10).push(digit_char(n % 10))
    }
}

// ---------------------------------------------------------------------
// Lemmas
// ---------------------------------------------------------------------
pub proof fn lemma_seq_less_irreflexive(a: Seq<char>)
    ensures
        !seq_less(a, a),
    decreases a.len(),
{
    if a.len() > 0 {
        lemma_seq_less_irreflexive(a.drop_first());
    }
}

pub proof fn lemma_seq_less_trichotomy(a: Seq<char>, b: Seq<char>)
    ensures
        a != b ==> (seq_less(a, b) || seq_less(b, a)),
        !(seq_less(a, b) && seq_less(b, a)),
    decreases a.len(),
{
    if a.len() > 0 && b.len() > 0 && a[0] == b[0] {
        lemma_seq_less_trichotomy(a.drop_first(), b.drop_first());
        if a != b {
            assert(a =~= seq![a[0]] + a.drop_first());
            assert(b =~= seq![b[0]] + b.drop_first());
        }
    } else if a.len() == 0 && b.len() == 0 {
        assert(a =~= b);
    }
}

pub proof fn lemma_seq_less_transitive(a: Seq<char>, b: Seq<char>, c: Seq<char>)
    requires
        seq_less(a, b),
        seq_less(b, c),
    ensures
        seq_less(a, c),
    decreases a.len(),
{
    if a.len() > 0 && b.len() > 0 && c.len() > 0 && a[0] == b[0] && b[0] == c[0] {
        lemma_seq_less_transitive(a.drop_first(), b.drop_first(), c.drop_first());
    }
}

proof fn lemma_trim_end_is_prefix(s: Seq<char>, c: char)
    ensures
        trim_end_spec(s, c).len() <= s.len(),
        trim_end_spec(s, c) == s.subrange(0, trim_end_spec(s, c).len() as int),
    decreases s.len(),
{
    if s.len() > 0 && s.last() == c {
        lemma_trim_end_is_prefix(s.drop_last(), c);
        assert(s.drop_last().subrange(0, trim_end_spec(s, c).len() as int) =~= s.subrange(
            0,
            trim_end_spec(s, c).len() as int,
        ));
    } else {
        assert(s.subrange(0, s.len() as int) =~= s);
    }
}

// ---------------------------------------------------------------------
// Executable operations
// ---------------------------------------------------------------------
/// The characters of `s`, in order.
pub fn chars_of(s: &str) -> (v: Vec<char>)
    ensures
        v@ == s@,
{
    let mut v: Vec<char> = Vec::new();
    for c in it: s.chars()
        invariant
            v@ == it.seq().take(it.index() as int),
            it.seq() == s@,
    {
        v.push(c);
    }
    v
}

/// A string made of the characters `chars[from..to]`.
pub fn string_from(chars: &Vec<char>, from: usize, to: usize) -> (s: String)
    requires
        from <= to <= chars@.len(),
    ensures
        s@ == chars@.subrange(from as int, to as int),
{
    let mut s = String::new();
    let mut i = from;
    while i < to
        invariant
            from <= i <= to <= chars@.len(),
            s@ == chars@.subrange(from as int, i as int),
        decreases to - i,
    {
        push_char(&mut s, chars[i]);
        assert(chars@.subrange(from as int, i + 1) =~= chars@.subrange(from as int, i as int).push(
            chars@[i as int],
        ));
        i += 1;
    }
    s
}

/// A fresh copy of `s`.
pub fn copy_str(s: &str) -> (r: String)
    ensures
        r@ == s@,
{
    s.to_string()
}

/// The concatenation of `a` and `b`.
pub fn concat2(a: &str, b: &str) -> (r: String)
    ensures
        r@ == a@ + b@,
{
    let mut r = a.to_string();
    r.append(b);
    r
}

/// The concatenation of `a`, `b` and `c`.
pub fn concat3(a: &str, b: &str, c: &str) -> (r: String)
    ensures
        r@ == a@ + b@ + c@,
{
    let mut r = a.to_string();
    r.append(b);
    r.append(c);
    r
}

/// The concatenation of `a`, `b`, `c` and `d`.
pub fn concat4(a: &str, b: &str, c: &str, d: &str) -> (r: String)
    ensures
        r@ == a@ + b@ + c@ + d@,
{
    let mut r = a.to_string();
    r.append(b);
    r.append(c);
    r.append(d);
    r
}

/// The concatenation of `a`, `b`, `c`, `d` and `e`.
pub fn concat5(a: &str, b: &str, c: &str, d: &str, e: &str) -> (r: String)
    ensures
        r@ == a@ + b@ + c@ + d@ + e@,
{
    let mut r = a.to_string();
    r.append(b);
    r.append(c);
    r.append(d);
    r.append(e);
    r
}

/// A fresh copy of an optional string.
pub fn copy_opt(s: &Option<String>) -> (r: Option<String>)
    ensures
        r == *s,
{
    match s {
        Some(x) => Some(x.clone()),
        None => None,
    }
}

/// Whether `s` is empty.
pub fn is_empty_str(s: &str) -> (r: bool)
    ensures
        r == (s@.len() == 0),
{
    s.is_empty()
}

/// Character equality of two strings.
pub fn same_text(a: &str, b: &str) -> (r: bool)
    ensures
        r == (a@ == b@),
{
    let x = chars_of(a);
    let y = chars_of(b);
    if x.len() != y.len() {
        return false;
    }
    let mut i: usize = 0;
    while i < x.len()
        invariant
            x@ == a@,
            y@ == b@,
            x@.len() == y@.len(),
            i <= x@.len(),
            forall|j: int| 0 <= j < i ==> x@[j] == y@[j],
        decreases x.len() - i,
    {
        if x[i] != y[i] {
            return false;
        }
        i += 1;
    }
    assert(x@ =~= y@);
    true
}

/// `s` without the prefix `p`, when it starts with it.
pub fn strip_prefix(s: &str, p: &str) -> (r: Option<String>)
    ensures
        r matches Some(t) ==> strip_prefix_spec(s@, p@) == Some(t@),
        r is None ==> strip_prefix_spec(s@, p@) is None,
{
    let x = chars_of(s);
    let y = chars_of(p);
    if y.len() > x.len() {
        return None;
    }
    let mut i: usize = 0;
    while i < y.len()
        invariant
            x@ == s@,
            y@ == p@,
            y@.len() <= x@.len(),
            i <= y@.len(),
            forall|j: int| 0 <= j < i ==> x@[j] == y@[j],
        decreases y.len() - i,
    {
        if x[i] != y[i] {
            assert(s@.subrange(0, p@.len() as int)[i as int] != p@[i as int]);
            return None;
        }
        i += 1;
    }
    assert(s@.subrange(0, p@.len() as int) =~= p@);
    Some(string_from(&x, y.len(), x.len()))
}

/// `s` without the prefix `p` if it has it, else a copy of `s`.
pub fn strip_prefix_or_keep(s: &str, p: &str) -> (r: String)
    ensures
        r@ == strip_or_keep(s@, p@),
{
    match strip_prefix(s, p) {
        Some(t) => t,
        None => copy_str(s),
    }
}

/// Whether `n` occurs in `s`.
pub fn contains(s: &str, n: &str) -> (r: bool)
    ensures
        r == contains_spec(s@, n@),
{
    let x = chars_of(s);
    let y = chars_of(n);
    if y.len() > x.len() {
        assert forall|i: int| !occurs_at(s@, n@, i) by {}
        return false;
    }
    if y.len() == 0 {
        assert(s@.subrange(0, 0) =~= n@);
        assert(occurs_at(s@, n@, 0));
        return true;
    }
    let xl = x.len();
    let last = xl - y.len();
    let mut i: usize = 0;
    while i <= last
        invariant
            x@ == s@,
            y@ == n@,
            0 < y@.len() <= x@.len(),
            x@.len() == xl,
            last == x@.len() - y@.len(),
            i <= last + 1,
            forall|k: int| 0 <= k < i ==> !occurs_at(s@, n@, k),
        decreases last + 1 - i,
    {
        let mut j: usize = 0;
        let mut ok = true;
        while j < y.len()
            invariant
                x@ == s@,
                y@ == n@,
                0 < y@.len() <= x@.len(),
                x@.len() == xl,
                last == x@.len() - y@.len(),
                i <= last,
                j <= y@.len(),
                ok ==> forall|t: int| 0 <= t < j ==> x@[i + t] == y@[t],
                !ok ==> !occurs_at(s@, n@, i as int),
            decreases y.len() - j,
        {
            assert(i + j < x@.len());
            if x[i + j] != y[j] {
                assert(s@.subrange(i as int, i + n@.len())[j as int] != n@[j as int]);
                ok = false;
            }
            j += 1;
        }
        if ok {
            assert(s@.subrange(i as int, i + n@.len()) =~= n@);
            assert(occurs_at(s@, n@, i as int));
            return true;
        }
        assert(i < x@.len());
        i += 1;
    }
    assert forall|k: int| !occurs_at(s@, n@, k) by {}
    false
}

/// `s` with every trailing `c` removed.
pub fn trim_end_char(s: &str, c: char) -> (r: String)
    ensures
        r@ == trim_end_spec(s@, c),
{
    let x = chars_of(s);
    let mut end = x.len();
    assert(x@.subrange(0, end as int) =~= x@);
    while end > 0 && x[end - 1] == c
        invariant
            x@ == s@,
            end <= x@.len(),
            trim_end_spec(s@, c) == trim_end_spec(x@.subrange(0, end as int), c),
        decreases end,
    {
        assert(x@.subrange(0, end as int).drop_last() =~= x@.subrange(0, end - 1));
        end -= 1;
    }
    assert(trim_end_spec(x@.subrange(0, end as int), c) == x@.subrange(0, end as int));
    string_from(&x, 0, end)
}

/// `s` with every leading `c` removed.
pub fn trim_start_char(s: &str, c: char) -> (r: String)
    ensures
        r@ == trim_start_spec(s@, c),
{
    let x = chars_of(s);
    let mut start: usize = 0;
    assert(x@.subrange(0, x@.len() as int) =~= x@);
    while start < x.len() && x[start] == c
        invariant
            x@ == s@,
            start <= x@.len(),
            trim_start_spec(s@, c) == trim_start_spec(x@.subrange(start as int, x@.len() as int), c),
        decreases x.len() - start,
    {
        assert(x@.subrange(start as int, x@.len() as int).drop_first() =~= x@.subrange(
            start + 1,
            x@.len() as int,
        ));
        start += 1;
    }
    string_from(&x, start, x.len())
}

/// Position of the last `c` among `x`.
pub fn last_index_of(x: &Vec<char>, c: char) -> (r: Option<usize>)
    ensures
        r matches Some(i) ==> last_index_spec(x@, c) == Some(i as int) && i < x@.len(),
        r is None ==> last_index_spec(x@, c) is None,
{
    let mut end = x.len();
    assert(x@.subrange(0, end as int) =~= x@);
    while end > 0
        invariant
            end <= x@.len(),
            last_index_spec(x@, c) == last_index_spec(x@.subrange(0, end as int), c),
        decreases end,
    {
        if x[end - 1] == c {
            return Some(end - 1);
        }
        assert(x@.subrange(0, end as int).drop_last() =~= x@.subrange(0, end - 1));
        end -= 1;
    }
    None
}

/// Strict lexicographic order of `a` before `b`, by code point.
pub fn precedes(a: &Vec<char>, b: &Vec<char>) -> (r: bool)
    ensures
        r == seq_less(a@, b@),
{
    let mut i: usize = 0;
    assert(a@.skip(0) =~= a@);
    assert(b@.skip(0) =~= b@);
    while i < a.len() && i < b.len() && a[i] == b[i]
        invariant
            i <= a@.len(),
            i <= b@.len(),
            seq_less(a@, b@) == seq_less(a@.skip(i as int), b@.skip(i as int)),
        decreases a.len() - i,
    {
        assert(a@.skip(i as int).drop_first() =~= a@.skip(i + 1));
        assert(b@.skip(i as int).drop_first() =~= b@.skip(i + 1));
        i += 1;
    }
    proof {
        if i < a@.len() && i < b@.len() {
            assert(a@.skip(i as int)[0] == a@[i as int]);
            assert(b@.skip(i as int)[0] == b@[i as int]);
        }
    }
    if i == a.len() {
        i < b.len()
    } else if i == b.len() {
        false
    } else {
        a[i] < b[i]
    }
}

/// Decimal rendering of `n`, as `format!("{n}")` writes it.
pub fn decimal_string(n: usize) -> (s: String)
    ensures
        s@ == decimal(n as nat),
{
    let mut digits: Vec<char> = Vec::new();
    let mut m = n;
    // digits holds the low-order digits, least significant first
    loop
        invariant
            m <= n,
            decimal(n as nat) == decimal(m as nat) + digits@.reverse(),
        decreases m,
    {
        if m < 10 {
            let d = ((48u8 + (m as u8)) as char);
            assert(decimal(m as nat) == seq![digit_char(m as nat)]);
            let mut s = String::new();
            push_char(&mut s, d);
            let mut k = digits.len();
            assert(digits@.reverse().subrange(0, 0) =~= Seq::<char>::empty());
            while k > 0
                invariant
                    k <= digits@.len(),
                    s@ == seq![digit_char(m as nat)] + digits@.reverse().subrange(
                        0,
                        digits@.len() - k,
                    ),
                decreases k,
            {
                push_char(&mut s, digits[k - 1]);
                assert(digits@.reverse().subrange(0, digits@.len() - k + 1) =~= digits@.reverse().subrange(
                    0,
                    digits@.len() - k,
                ).push(digits@[k - 1]));
                k -= 1;
            }
            assert(digits@.reverse().subrange(0, digits@.len() as int) =~= digits@.reverse());
            return s;
        }
        let d = ((48u8 + ((m % 10) as u8)) as char);
        assert(decimal(m as nat) == decimal((m / 10) as nat).push(digit_char((m % 10) as nat)));
        assert(digits@.push(d).reverse() =~= seq![d] + digits@.reverse());
        digits.push(d);
        m = m / 10;
    }
}

} // verus!
