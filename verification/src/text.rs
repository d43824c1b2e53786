//! Character-level helpers for working with `str` and `String`.
//!
//! Text is modelled as `Seq<char>`. The executable helpers work on a
//! `Vec<char>` and index ranges into it, so that callers can walk a text
//! without copying it.

use vstd::prelude::*;

verus! {

broadcast use vstd::string::group_string_axioms;

/// `String::push` appends one character to the end of the string.
pub assume_specification[ String::push ](s: &mut String, c: char)
    ensures
        final(s)@ == old(s)@.push(c),
;

/// Names the result of `str::to_lowercase`: the Unicode lower-case mapping
/// of a text.
pub uninterp spec fn lowercase(s: Seq<char>) -> Seq<char>;

/// `str::to_lowercase`: the lower-case form of `s`, which depends on `s` alone.
#[verifier::external_body]
pub(crate) fn to_lowercase(s: &str) -> (out: String)
    ensures
        out@ == lowercase(s@),
{
    s.to_lowercase()
}

/// Whether `c` has the Unicode `White_Space` property.
pub open spec fn is_space(c: char) -> bool {
    let n = c as u32;
    ||| 0x09 <= n <= 0x0D
    ||| n == 0x20
    ||| n == 0x85
    ||| n == 0xA0
    ||| n == 0x1680
    ||| 0x2000 <= n <= 0x200A
    ||| n == 0x2028
    ||| n == 0x2029
    ||| n == 0x202F
    ||| n == 0x205F
    ||| n == 0x3000
}

/// `s` without its leading white space.
pub open spec fn skip_spaces(s: Seq<char>) -> Seq<char>
    decreases s.len(),
{
    if s.len() > 0 && is_space(s[0]) {
        skip_spaces(s.drop_first())
    } else {
        s
    }
}

/// `s` without its trailing white space.
pub open spec fn drop_trailing_spaces(s: Seq<char>) -> Seq<char>
    decreases s.len(),
{
    if s.len() > 0 && is_space(s.last()) {
        drop_trailing_spaces(s.drop_last())
    } else {
        s
    }
}

/// `s` without leading and trailing white space.
pub open spec fn trimmed(s: Seq<char>) -> Seq<char> {
    drop_trailing_spaces(skip_spaces(s))
}

/// `s` without its leading run of the character `c`.
pub open spec fn skip_char(s: Seq<char>, c: char) -> Seq<char>
    decreases s.len(),
{
    if s.len() > 0 && s[0] == c {
        skip_char(s.drop_first(), c)
    } else {
        s
    }
}

/// `s` without its trailing run of the character `c`.
pub open spec fn drop_trailing_char(s: Seq<char>, c: char) -> Seq<char>
    decreases s.len(),
{
    if s.len() > 0 && s.last() == c {
        drop_trailing_char(s.drop_last(), c)
    } else {
        s
    }
}

/// The index of the first `c` in `s`, or `s.len()` where `s` holds none.
pub open spec fn first_index(s: Seq<char>, c: char) -> int
    decreases s.len(),
{
    if s.len() == 0 || s[0] == c {
        0
    } else {
        1 + first_index(s.drop_first(), c)
    }
}

/// The index of the first `a` or `b` in `s`, or `s.len()` where `s` holds
/// neither.
pub open spec fn first_index_of_either(s: Seq<char>, a: char, b: char) -> int
    decreases s.len(),
{
    if s.len() == 0 || s[0] == a || s[0] == b {
        0
    } else {
        1 + first_index_of_either(s.drop_first(), a, b)
    }
}

/// Whether `pat` occurs in `s` as a contiguous run.
pub open spec fn has_infix(s: Seq<char>, pat: Seq<char>) -> bool {
    exists|i: int| occurs_at(s, pat, i)
}

/// Whether `pat` occurs in `s` starting at index `i`.
pub open spec fn occurs_at(s: Seq<char>, pat: Seq<char>, i: int) -> bool {
    0 <= i && i + pat.len() <= s.len() && s.subrange(i, i + pat.len()) == pat
}

/// The decimal digit for `d`, for `d` below ten.
pub open spec fn digit_char(d: nat) -> char {
    (0x30 + d) as u8 as char
}

/// The decimal rendering of `n`, without leading zeros.
pub open spec fn decimal(n: nat) -> Seq<char>
    decreases n,
{
    if n < 10 {
        seq![digit_char(n)]
    } else {
        decimal(n / 10).push(digit_char(n % 10))
    }
}

/// The texts of `parts` run together, with `sep` between neighbours.
pub open spec fn joined(parts: Seq<Seq<char>>, sep: Seq<char>) -> Seq<char>
    decreases parts.len(),
{
    if parts.len() == 0 {
        Seq::empty()
    } else if parts.len() == 1 {
        parts[0]
    } else {
        joined(parts.drop_last(), sep) + sep + parts.last()
    }
}

/// The view of a string that may be absent.
pub open spec fn opt_text(o: Option<String>) -> Option<Seq<char>> {
    match o {
        Some(s) => Some(s@),
        None => None,
    }
}

/// The views of a sequence of strings.
pub open spec fn texts(v: Seq<String>) -> Seq<Seq<char>> {
    v.map_values(|s: String| s@)
}

/// `first_index` lies within the text, points at a `c` unless it is the
/// length, and nothing before it is a `c`.
pub proof fn lemma_first_index(s: Seq<char>, c: char)
    ensures
        0 <= first_index(s, c) <= s.len(),
        first_index(s, c) < s.len() ==> s[first_index(s, c)] == c,
        forall|j: int| 0 <= j < first_index(s, c) ==> s[j] != c,
    decreases s.len(),
{
    if s.len() == 0 || s[0] == c {
    } else {
        let t = s.drop_first();
        lemma_first_index(t, c);
        assert forall|j: int| 0 <= j < first_index(s, c) implies s[j] != c by {
            if j > 0 {
                assert(s[j] == t[j - 1]);
            }
        }
    }
}

/// An index that points at the first `c` is `first_index`.
pub proof fn lemma_first_index_is(s: Seq<char>, c: char, i: int)
    requires
        0 <= i <= s.len(),
        forall|j: int| 0 <= j < i ==> s[j] != c,
        i < s.len() ==> s[i] == c,
    ensures
        first_index(s, c) == i,
{
    lemma_first_index(s, c);
    let k = first_index(s, c);
    if k < i {
        assert(s[k] != c);
    } else if i < k {
        assert(s[i] == c);
    }
}

/// `first_index_of_either` lies within the text, points at an `a` or a `b`
/// unless it is the length, and nothing before it is either.
pub proof fn lemma_first_index_of_either(s: Seq<char>, a: char, b: char)
    ensures
        0 <= first_index_of_either(s, a, b) <= s.len(),
        first_index_of_either(s, a, b) < s.len() ==> s[first_index_of_either(s, a, b)] == a
            || s[first_index_of_either(s, a, b)] == b,
        forall|j: int| 0 <= j < first_index_of_either(s, a, b) ==> s[j] != a && s[j] != b,
    decreases s.len(),
{
    if s.len() == 0 || s[0] == a || s[0] == b {
    } else {
        let t = s.drop_first();
        lemma_first_index_of_either(t, a, b);
        assert forall|j: int| 0 <= j < first_index_of_either(s, a, b) implies s[j] != a && s[j]
            != b by {
            if j > 0 {
                assert(s[j] == t[j - 1]);
            }
        }
    }
}

/// An index that points at the first `a` or `b` is `first_index_of_either`.
pub proof fn lemma_first_index_of_either_is(s: Seq<char>, a: char, b: char, i: int)
    requires
        0 <= i <= s.len(),
        forall|j: int| 0 <= j < i ==> s[j] != a && s[j] != b,
        i < s.len() ==> s[i] == a || s[i] == b,
    ensures
        first_index_of_either(s, a, b) == i,
{
    lemma_first_index_of_either(s, a, b);
    let k = first_index_of_either(s, a, b);
    if k < i {
        assert(s[k] != a && s[k] != b);
    } else if i < k {
        assert(s[i] == a || s[i] == b);
    }
}

/// Whether `c` has the Unicode `White_Space` property.
pub fn is_whitespace(c: char) -> (r: bool)
    ensures
        r == is_space(c),
{
    let n: u32 = c as u32;
    (0x09 <= n && n <= 0x0D) || n == 0x20 || n == 0x85 || n == 0xA0 || n == 0x1680 || (0x2000 <= n
        && n <= 0x200A) || n == 0x2028 || n == 0x2029 || n == 0x202F || n == 0x205F || n == 0x3000
}

/// The characters of `s`, in order.
pub fn chars_of(s: &str) -> (out: Vec<char>)
    ensures
        out@ == s@,
{
    let mut out: Vec<char> = Vec::new();
    for c in it: s.chars()
        invariant
            it.seq() == s@,
            out@ == it.seq().take(it.index() as int),
    {
        out.push(c);
    }
    assert(out@ == s@);
    out
}

/// The string made of the characters `chars[from..to]`.
pub fn string_of(chars: &Vec<char>, from: usize, to: usize) -> (out: String)
    requires
        from <= to <= chars@.len(),
    ensures
        out@ == chars@.subrange(from as int, to as int),
{
    let mut out = String::new();
    let mut i: usize = from;
    while i < to
        invariant
            from <= i <= to <= chars@.len(),
            out@ == chars@.subrange(from as int, i as int),
        decreases to - i,
    {
        out.push(chars[i]);
        i += 1;
    }
    out
}

/// The string made of all of `chars`.
pub fn string_from(chars: &Vec<char>) -> (out: String)
    ensures
        out@ == chars@,
{
    let out = string_of(chars, 0, chars.len());
    assert(chars@.subrange(0, chars@.len() as int) == chars@);
    out
}

/// Whether two texts hold the same characters.
pub fn same_text(a: &str, b: &str) -> (r: bool)
    ensures
        r == (a@ == b@),
{
    let x = chars_of(a);
    let y = chars_of(b);
    assert(x@.subrange(0, x@.len() as int) == x@);
    same_chars(&x, 0, x.len(), &y)
}

/// Whether `chars[from..to]` equals `other`.
pub fn same_chars(chars: &Vec<char>, from: usize, to: usize, other: &Vec<char>) -> (r: bool)
    requires
        from <= to <= chars@.len(),
    ensures
        r == (chars@.subrange(from as int, to as int) == other@),
{
    if to - from != other.len() {
        return false;
    }
    let ghost sub = chars@.subrange(from as int, to as int);
    let mut i: usize = 0;
    while i < other.len()
        invariant
            from <= to <= chars@.len(),
            to - from == other@.len(),
            sub == chars@.subrange(from as int, to as int),
            0 <= i <= other@.len(),
            forall|j: int| 0 <= j < i ==> sub[j] == other@[j],
        decreases other@.len() - i,
    {
        if chars[from + i] != other[i] {
            assert(sub[i as int] != other@[i as int]);
            return false;
        }
        i += 1;
    }
    assert(sub =~= other@);
    true
}

/// Whether `chars[from..to]` starts with `pat`.
pub fn starts_with_at(chars: &Vec<char>, from: usize, to: usize, pat: &Vec<char>) -> (r: bool)
    requires
        from <= to <= chars@.len(),
    ensures
        r == pat@.is_prefix_of(chars@.subrange(from as int, to as int)),
{
    let ghost sub = chars@.subrange(from as int, to as int);
    if to - from < pat.len() {
        return false;
    }
    let r = same_chars(chars, from, from + pat.len(), pat);
    assert(sub.subrange(0, pat@.len() as int) =~= chars@.subrange(
        from as int,
        from + pat@.len() as int,
    ));
    r
}

/// The start of `chars[from..to]` once its leading white space is skipped.
pub fn skip_spaces_at(chars: &Vec<char>, from: usize, to: usize) -> (a: usize)
    requires
        from <= to <= chars@.len(),
    ensures
        from <= a <= to,
        chars@.subrange(a as int, to as int) == skip_spaces(chars@.subrange(from as int, to as int)),
{
    let mut a: usize = from;
    while a < to && is_whitespace(chars[a])
        invariant
            from <= a <= to <= chars@.len(),
            skip_spaces(chars@.subrange(a as int, to as int)) == skip_spaces(
                chars@.subrange(from as int, to as int),
            ),
        decreases to - a,
    {
        assert(chars@.subrange(a as int, to as int).drop_first() =~= chars@.subrange(
            a + 1,
            to as int,
        ));
        a += 1;
    }
    a
}

/// The end of `chars[from..to]` once its trailing white space is dropped.
pub fn drop_trailing_spaces_at(chars: &Vec<char>, from: usize, to: usize) -> (b: usize)
    requires
        from <= to <= chars@.len(),
    ensures
        from <= b <= to,
        chars@.subrange(from as int, b as int) == drop_trailing_spaces(
            chars@.subrange(from as int, to as int),
        ),
{
    let mut b: usize = to;
    while from < b && is_whitespace(chars[b - 1])
        invariant
            from <= b <= to <= chars@.len(),
            drop_trailing_spaces(chars@.subrange(from as int, b as int)) == drop_trailing_spaces(
                chars@.subrange(from as int, to as int),
            ),
        decreases b - from,
    {
        assert(chars@.subrange(from as int, b as int).drop_last() =~= chars@.subrange(
            from as int,
            b - 1,
        ));
        b -= 1;
    }
    b
}

/// The bounds of `chars[from..to]` once white space is trimmed at both ends.
pub fn trim_at(chars: &Vec<char>, from: usize, to: usize) -> (r: (usize, usize))
    requires
        from <= to <= chars@.len(),
    ensures
        from <= r.0 <= r.1 <= to,
        chars@.subrange(r.0 as int, r.1 as int) == trimmed(chars@.subrange(from as int, to as int)),
{
    let a = skip_spaces_at(chars, from, to);
    let b = drop_trailing_spaces_at(chars, a, to);
    (a, b)
}

/// The start of `chars[from..to]` once its leading run of `c` is skipped.
pub fn skip_char_at(chars: &Vec<char>, from: usize, to: usize, c: char) -> (a: usize)
    requires
        from <= to <= chars@.len(),
    ensures
        from <= a <= to,
        chars@.subrange(a as int, to as int) == skip_char(chars@.subrange(from as int, to as int), c),
{
    let mut a: usize = from;
    while a < to && chars[a] == c
        invariant
            from <= a <= to <= chars@.len(),
            skip_char(chars@.subrange(a as int, to as int), c) == skip_char(
                chars@.subrange(from as int, to as int),
                c,
            ),
        decreases to - a,
    {
        assert(chars@.subrange(a as int, to as int).drop_first() =~= chars@.subrange(
            a + 1,
            to as int,
        ));
        a += 1;
    }
    a
}

/// The end of `chars[from..to]` once its trailing run of `c` is dropped.
pub fn drop_trailing_char_at(chars: &Vec<char>, from: usize, to: usize, c: char) -> (b: usize)
    requires
        from <= to <= chars@.len(),
    ensures
        from <= b <= to,
        chars@.subrange(from as int, b as int) == drop_trailing_char(
            chars@.subrange(from as int, to as int),
            c,
        ),
{
    let mut b: usize = to;
    while from < b && chars[b - 1] == c
        invariant
            from <= b <= to <= chars@.len(),
            drop_trailing_char(chars@.subrange(from as int, b as int), c) == drop_trailing_char(
                chars@.subrange(from as int, to as int),
                c,
            ),
        decreases b - from,
    {
        assert(chars@.subrange(from as int, b as int).drop_last() =~= chars@.subrange(
            from as int,
            b - 1,
        ));
        b -= 1;
    }
    b
}

/// The position of the first `c` in `chars[from..to]`, or `to` where there is
/// none.
pub fn find_char(chars: &Vec<char>, from: usize, to: usize, c: char) -> (i: usize)
    requires
        from <= to <= chars@.len(),
    ensures
        from <= i <= to,
        i - from == first_index(chars@.subrange(from as int, to as int), c),
{
    let ghost sub = chars@.subrange(from as int, to as int);
    let mut i: usize = from;
    while i < to && chars[i] != c
        invariant
            from <= i <= to <= chars@.len(),
            sub == chars@.subrange(from as int, to as int),
            forall|j: int| 0 <= j < i - from ==> sub[j] != c,
        decreases to - i,
    {
        i += 1;
    }
    proof {
        lemma_first_index_is(sub, c, i - from);
    }
    i
}

/// The position of the first `a` or `b` in `chars[from..to]`, or `to` where
/// there is neither.
pub fn find_either(chars: &Vec<char>, from: usize, to: usize, a: char, b: char) -> (i: usize)
    requires
        from <= to <= chars@.len(),
    ensures
        from <= i <= to,
        i - from == first_index_of_either(chars@.subrange(from as int, to as int), a, b),
{
    let ghost sub = chars@.subrange(from as int, to as int);
    let mut i: usize = from;
    while i < to && chars[i] != a && chars[i] != b
        invariant
            from <= i <= to <= chars@.len(),
            sub == chars@.subrange(from as int, to as int),
            forall|j: int| 0 <= j < i - from ==> sub[j] != a && sub[j] != b,
        decreases to - i,
    {
        i += 1;
    }
    proof {
        lemma_first_index_of_either_is(sub, a, b, i - from);
    }
    i
}

/// Whether `pat` occurs in `chars[from..to]`.
pub fn contains_at(chars: &Vec<char>, from: usize, to: usize, pat: &Vec<char>) -> (r: bool)
    requires
        from <= to <= chars@.len(),
    ensures
        r == has_infix(chars@.subrange(from as int, to as int), pat@),
{
    let ghost sub = chars@.subrange(from as int, to as int);
    if to - from < pat.len() {
        assert(!has_infix(sub, pat@)) by {
            if has_infix(sub, pat@) {
                let i = choose|i: int| occurs_at(sub, pat@, i);
                assert(occurs_at(sub, pat@, i));
            }
        }
        return false;
    }
    if pat.len() == 0 {
        assert(sub.subrange(0, 0) =~= pat@);
        assert(occurs_at(sub, pat@, 0));
        return true;
    }
    let last: usize = to - pat.len();
    let mut i: usize = from;
    while i <= last
        invariant
            from <= i <= last + 1,
            last + pat@.len() == to,
            pat@.len() > 0,
            to <= chars@.len(),
            sub == chars@.subrange(from as int, to as int),
            forall|k: int| 0 <= k < i - from ==> !occurs_at(sub, pat@, k),
        decreases last + 1 - i,
    {
        if same_chars(chars, i, i + pat.len(), pat) {
            assert(sub.subrange(i - from, i - from + pat@.len()) =~= chars@.subrange(
                i as int,
                i + pat@.len(),
            ));
            assert(occurs_at(sub, pat@, i - from));
            return true;
        }
        assert(!occurs_at(sub, pat@, i - from)) by {
            assert(sub.subrange(i - from, i - from + pat@.len()) =~= chars@.subrange(
                i as int,
                i + pat@.len(),
            ));
        }
        i += 1;
    }
    assert(!has_infix(sub, pat@)) by {
        if has_infix(sub, pat@) {
            let k = choose|k: int| occurs_at(sub, pat@, k);
            assert(occurs_at(sub, pat@, k));
            assert(k < i - from);
        }
    }
    false
}

/// Whether `pat` occurs in `s`.
pub fn contains_text(s: &str, pat: &str) -> (r: bool)
    ensures
        r == has_infix(s@, pat@),
{
    let chars = chars_of(s);
    let p = chars_of(pat);
    assert(chars@.subrange(0, chars@.len() as int) == chars@);
    contains_at(&chars, 0, chars.len(), &p)
}

/// `prefix` followed by `rest`.
pub fn prefixed(prefix: &str, rest: &str) -> (out: String)
    ensures
        out@ == prefix@ + rest@,
{
    let mut out = prefix.to_string();
    out.append(rest);
    out
}

/// Whether `s` starts with `prefix`.
pub fn starts_with_text(s: &str, prefix: &str) -> (r: bool)
    ensures
        r == prefix@.is_prefix_of(s@),
{
    let chars = chars_of(s);
    let p = chars_of(prefix);
    assert(chars@.subrange(0, chars@.len() as int) == chars@);
    starts_with_at(&chars, 0, chars.len(), &p)
}

/// The decimal rendering of `n`.
pub fn decimal_string(n: u64) -> (out: String)
    ensures
        out@ == decimal(n as nat),
{
    let mut digits: Vec<char> = Vec::new();
    let mut rest: u64 = n;
    // `digits` holds the low digits of `n`, lowest first.
    while rest >= 10
        invariant
            decimal(n as nat) == decimal(rest as nat) + digits@.reverse(),
        decreases rest,
    {
        let d: u8 = (rest % 10) as u8;
        let ghost before = digits@;
        digits.push((0x30 + d) as char);
        proof {
            assert(decimal(rest as nat) == decimal((rest / 10) as nat).push(
                digit_char((rest % 10) as nat),
            ));
            assert(digits@.reverse() =~= seq![digit_char((rest % 10) as nat)] + before.reverse());
            assert(decimal((rest / 10) as nat).push(digit_char((rest % 10) as nat))
                + before.reverse() =~= decimal((rest / 10) as nat) + digits@.reverse());
        }
        rest = rest / 10;
    }
    let ghost before = digits@;
    digits.push((0x30 + (rest as u8)) as char);
    proof {
        assert(digits@.reverse() =~= seq![digit_char(rest as nat)] + before.reverse());
        assert(decimal(rest as nat) == seq![digit_char(rest as nat)]);
    }
    let mut out = String::new();
    let mut i: usize = digits.len();
    while i > 0
        invariant
            0 <= i <= digits@.len(),
            out@ == digits@.reverse().subrange(0, digits@.len() - i),
        decreases i,
    {
        i -= 1;
        out.push(digits[i]);
        assert(digits@.reverse()[digits@.len() - 1 - i] == digits@[i as int]);
        assert(out@ =~= digits@.reverse().subrange(0, digits@.len() - i));
    }
    assert(digits@.reverse().subrange(0, digits@.len() as int) == digits@.reverse());
    out
}

/// The texts of `parts` run together with `sep` between neighbours.
pub fn join(parts: &Vec<String>, sep: &str) -> (out: String)
    ensures
        out@ == joined(texts(parts@), sep@),
{
    let mut out = String::new();
    let mut i: usize = 0;
    while i < parts.len()
        invariant
            0 <= i <= parts@.len(),
            out@ == joined(texts(parts@).take(i as int), sep@),
        decreases parts@.len() - i,
    {
        let ghost prefix = texts(parts@).take(i as int);
        let ghost next = texts(parts@).take(i + 1);
        proof {
            assert(next.drop_last() =~= prefix);
            assert(next.last() == parts@[i as int]@);
        }
        if i > 0 {
            out.append(sep);
        } else {
            assert(prefix.len() == 0);
            assert(out@ =~= Seq::<char>::empty());
        }
        out.append(parts[i].as_str());
        proof {
            if i > 0 {
                assert(out@ == joined(prefix, sep@) + sep@ + parts@[i as int]@);
            } else {
                assert(out@ =~= parts@[i as int]@);
            }
        }
        i += 1;
    }
    assert(texts(parts@).take(parts@.len() as int) == texts(parts@));
    out
}

/// `c` with an ASCII capital letter turned into its small letter.
pub open spec fn ascii_lower(c: char) -> char {
    if 'A' <= c && c <= 'Z' {
        ((c as u8) + 32) as char
    } else {
        c
    }
}

/// Whether two texts are equal once their ASCII capital letters are turned
/// into small letters.
pub open spec fn same_ignoring_ascii_case(a: Seq<char>, b: Seq<char>) -> bool {
    a.len() == b.len() && forall|i: int| 0 <= i < a.len() ==> ascii_lower(a[i]) == ascii_lower(b[i])
}

/// `c` with an ASCII capital letter turned into its small letter.
pub fn to_ascii_lower(c: char) -> (r: char)
    ensures
        r == ascii_lower(c),
{
    if c >= 'A' && c <= 'Z' {
        ((c as u8) + 32) as char
    } else {
        c
    }
}

/// Whether `a` and `b` are equal but for the case of ASCII letters.
pub fn equals_ignoring_ascii_case(a: &str, b: &str) -> (r: bool)
    ensures
        r == same_ignoring_ascii_case(a@, b@),
{
    let x = chars_of(a);
    let y = chars_of(b);
    if x.len() != y.len() {
        return false;
    }
    let mut i: usize = 0;
    while i < x.len()
        invariant
            0 <= i <= x@.len(),
            x@.len() == y@.len(),
            x@ == a@,
            y@ == b@,
            forall|j: int| 0 <= j < i ==> ascii_lower(x@[j]) == ascii_lower(y@[j]),
        decreases x@.len() - i,
    {
        if to_ascii_lower(x[i]) != to_ascii_lower(y[i]) {
            assert(ascii_lower(a@[i as int]) != ascii_lower(b@[i as int]));
            return false;
        }
        i += 1;
    }
    true
}

/// Whether `c` is one of the digits `0` to `9`.
pub open spec fn is_digit(c: char) -> bool {
    '0' <= c && c <= '9'
}

/// The number that a text of digits stands for in decimal.
pub open spec fn digits_value(s: Seq<char>) -> nat
    decreases s.len(),
{
    if s.len() == 0 {
        0
    } else {
        digits_value(s.drop_last()) * 10 + ((s.last() as u8) - 0x30) as nat
    }
}

/// `s` without a leading `+`.
pub open spec fn unsigned_digits(s: Seq<char>) -> Seq<char> {
    if s.len() > 0 && s[0] == '+' {
        s.drop_first()
    } else {
        s
    }
}

/// The `u64` that a decimal text stands for: an optional `+`, then one or
/// more digits, with a value of at most `u64::MAX`.
pub open spec fn parsed_u64(s: Seq<char>) -> Option<u64> {
    let digits = unsigned_digits(s);
    if digits.len() > 0 && (forall|i: int| 0 <= i < digits.len() ==> is_digit(#[trigger] digits[i]))
        && digits_value(digits) <= u64::MAX {
        Some(digits_value(digits) as u64)
    } else {
        None
    }
}

/// The value of a prefix of a text of digits is at most that of the text.
pub proof fn lemma_digits_value_prefix(s: Seq<char>, n: int)
    requires
        0 <= n <= s.len(),
        forall|i: int| 0 <= i < s.len() ==> is_digit(#[trigger] s[i]),
    ensures
        digits_value(s.take(n)) <= digits_value(s),
    decreases s.len() - n,
{
    if n < s.len() {
        lemma_digits_value_prefix(s, n + 1);
        assert(s.take(n + 1).drop_last() =~= s.take(n));
    } else {
        assert(s.take(n) =~= s);
    }
}

/// The `u64` that the decimal text `s` stands for, if it is one.
pub fn parse_u64(s: &str) -> (r: Option<u64>)
    ensures
        r == parsed_u64(s@),
{
    let chars = chars_of(s);
    let start: usize = if chars.len() > 0 && chars[0] == '+' {
        1
    } else {
        0
    };
    let ghost digits = unsigned_digits(s@);
    assert(digits =~= chars@.subrange(start as int, chars@.len() as int));
    if start == chars.len() {
        return None;
    }
    let mut value: u64 = 0;
    let mut i: usize = start;
    while i < chars.len()
        invariant
            start <= i <= chars@.len(),
            digits == chars@.subrange(start as int, chars@.len() as int),
            digits == unsigned_digits(s@),
            forall|j: int| 0 <= j < i - start ==> is_digit(#[trigger] digits[j]),
            value == digits_value(digits.take(i - start)),
        decreases chars@.len() - i,
    {
        let c = chars[i];
        assert(digits[i - start] == c);
        if !(c >= '0' && c <= '9') {
            assert(!is_digit(digits[i - start]));
            return None;
        }
        let d: u64 = ((c as u8) - 0x30) as u64;
        proof {
            assert(digits.take(i - start + 1).drop_last() =~= digits.take(i - start));
            assert(digits.take(i - start + 1).last() == c);
        }
        let next = match value.checked_mul(10) {
            Some(tens) => tens.checked_add(d),
            None => None,
        };
        match next {
            Some(n) => {
                value = n;
            },
            None => {
                proof {
                    assert(digits_value(digits.take(i - start + 1)) > u64::MAX);
                    if forall|j: int| 0 <= j < digits.len() ==> is_digit(#[trigger] digits[j]) {
                        lemma_digits_value_prefix(digits, i - start + 1);
                    }
                }
                return None;
            },
        }
        i += 1;
    }
    assert(digits.take(digits.len() as int) =~= digits);
    Some(value)
}

} // verus!
