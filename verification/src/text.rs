//! Character-sequence utilities with exact specifications.
//!
//! Strings are handled as sequences of Unicode scalar values (`Seq<char>`).
//! Every operation here mirrors the meaning of the corresponding `str`
//! method of the standard library (`trim`, `find`, `replace`, `split`, ...),
//! stated as a recursive specification and proved for the executable code.
use vstd::prelude::*;

verus! {

// ---------------------------------------------------------------------------
// Specifications
// ---------------------------------------------------------------------------

/// Unicode `White_Space` property, which is what `char::is_whitespace` tests.
pub open spec fn is_ws(c: char) -> bool {
    let u = c as u32;
    (0x9 <= u && u <= 0xd) || u == 0x20 || u == 0x85 || u == 0xa0 || u == 0x1680
        || (0x2000 <= u && u <= 0x200a) || u == 0x2028 || u == 0x2029 || u == 0x202f
        || u == 0x205f || u == 0x3000
}

/// `str::trim_start`.
pub open spec fn trim_start(s: Seq<char>) -> Seq<char>
    decreases s.len(),
{
    if s.len() > 0 && is_ws(s[0]) {
        trim_start(s.drop_first())
    } else {
        s
    }
}

/// `str::trim_end`.
pub open spec fn trim_end(s: Seq<char>) -> Seq<char>
    decreases s.len(),
{
    if s.len() > 0 && is_ws(s.last()) {
        trim_end(s.drop_last())
    } else {
        s
    }
}

/// `str::trim`.
pub open spec fn trim(s: Seq<char>) -> Seq<char> {
    trim_end(trim_start(s))
}

/// `needle` occurs in `hay` starting at position `i`.
pub open spec fn occurs_at(hay: Seq<char>, needle: Seq<char>, i: int) -> bool {
    0 <= i && i + needle.len() <= hay.len() && hay.subrange(i, i + needle.len()) == needle
}

/// First occurrence of `needle` in `hay` at a position `>= i`.
pub open spec fn find_from(hay: Seq<char>, needle: Seq<char>, i: int) -> Option<int>
    decreases hay.len() + 1 - i,
{
    if i < 0 || i + needle.len() > hay.len() {
        None
    } else if occurs_at(hay, needle, i) {
        Some(i)
    } else {
        find_from(hay, needle, i + 1)
    }
}

/// `str::find` with a string pattern (positions counted in characters).
pub open spec fn find(hay: Seq<char>, needle: Seq<char>) -> Option<int> {
    find_from(hay, needle, 0)
}

/// `str::contains` with a string pattern.
pub open spec fn contains(hay: Seq<char>, needle: Seq<char>) -> bool {
    find(hay, needle) is Some
}

/// `str::starts_with`.
pub open spec fn starts_with(s: Seq<char>, p: Seq<char>) -> bool {
    p.len() <= s.len() && s.take(p.len() as int) == p
}

/// `str::ends_with`.
pub open spec fn ends_with(s: Seq<char>, p: Seq<char>) -> bool {
    p.len() <= s.len() && s.skip(s.len() - p.len()) == p
}

/// `str::replace` with a non-empty pattern: every non-overlapping
/// occurrence, scanning from the left, is replaced.
pub open spec fn replace_all(s: Seq<char>, from: Seq<char>, to: Seq<char>) -> Seq<char>
    decreases s.len(),
{
    if from.len() == 0 {
        s
    } else {
        match find(s, from) {
            Some(i) => if 0 <= i && i + from.len() <= s.len() {
                s.take(i) + to + replace_all(s.skip(i + from.len()), from, to)
            } else {
                s
            },
            None => s,
        }
    }
}

/// `str::replacen(from, to, 1)`: only the first occurrence is replaced.
pub open spec fn replace_first(s: Seq<char>, from: Seq<char>, to: Seq<char>) -> Seq<char> {
    match find(s, from) {
        Some(i) => s.take(i) + to + s.skip(i + from.len()),
        None => s,
    }
}

/// `str::split` on a single character.
pub open spec fn split_char(s: Seq<char>, sep: char) -> Seq<Seq<char>>
    decreases s.len(),
{
    match find(s, seq![sep]) {
        Some(i) => if 0 <= i && i < s.len() {
            seq![s.take(i)] + split_char(s.skip(i + 1), sep)
        } else {
            seq![s]
        },
        None => seq![s],
    }
}

/// `str::split` yields at least one piece.
pub proof fn lemma_split_nonempty(s: Seq<char>, sep: char)
    ensures
        split_char(s, sep).len() >= 1,
{
}

/// `[..].join(sep)`.
pub open spec fn join(parts: Seq<Seq<char>>, sep: Seq<char>) -> Seq<char>
    decreases parts.len(),
{
    if parts.len() == 0 {
        Seq::empty()
    } else if parts.len() == 1 {
        parts[0]
    } else {
        join(parts.drop_last(), sep) + sep + parts.last()
    }
}

/// Length of the longest prefix of `s` that holds no whitespace.
pub open spec fn word_len(s: Seq<char>) -> nat
    decreases s.len(),
{
    if s.len() == 0 || is_ws(s[0]) {
        0
    } else {
        1 + word_len(s.drop_first())
    }
}

/// `str::split_whitespace`.
pub open spec fn words(s: Seq<char>) -> Seq<Seq<char>>
    decreases s.len(),
{
    if s.len() == 0 {
        Seq::empty()
    } else if is_ws(s[0]) {
        words(s.drop_first())
    } else {
        let n = word_len(s);
        if 0 < n && n <= s.len() {
            seq![s.take(n as int)] + words(s.skip(n as int))
        } else {
            seq![s]
        }
    }
}

/// A line without a trailing carriage return.
pub open spec fn strip_cr(s: Seq<char>) -> Seq<char> {
    if s.len() > 0 && s.last() == '\r' {
        s.drop_last()
    } else {
        s
    }
}

/// `str::lines`: split at `\n`, drop the `\r` of a `\r\n` ending, and no
/// empty final line after a trailing newline.
pub open spec fn lines(s: Seq<char>) -> Seq<Seq<char>>
    decreases s.len(),
{
    if s.len() == 0 {
        Seq::empty()
    } else {
        match find(s, seq!['\n']) {
            Some(i) => if 0 <= i && i < s.len() {
                seq![strip_cr(s.take(i))] + lines(s.skip(i + 1))
            } else {
                seq![s]
            },
            None => seq![s],
        }
    }
}

/// ASCII letters and digits (`char::is_ascii_alphanumeric`).
pub open spec fn is_ascii_alnum(c: char) -> bool {
    ('0' <= c && c <= '9') || ('a' <= c && c <= 'z') || ('A' <= c && c <= 'Z')
}

/// `char::to_ascii_lowercase`.
pub open spec fn ascii_lower(c: char) -> char {
    if 'A' <= c && c <= 'Z' {
        ((c as u32) + 32) as char
    } else {
        c
    }
}

/// Decimal digit character for `d < 10`.
pub open spec fn digit_char(d: nat) -> char {
    ((d + 48) as u32) as char
}

/// Decimal representation of a natural number (as `to_string` prints it).
pub open spec fn decimal(n: nat) -> Seq<char>
    decreases n,
{
    if n < 10 {
        seq![digit_char(n)]
    } else {
        decimal(n / 10).push(digit_char(n % 10))
    }
}

/// Lowercase hexadecimal digit for `d < 16`.
pub open spec fn hex_digit_lower(d: u8) -> char {
    if d < 10 {
        ((d + 48) as u8) as char
    } else {
        ((d + 87) as u8) as char
    }
}

/// Lowercase hexadecimal rendering of bytes, two digits per byte.
pub open spec fn hex_lower(b: Seq<u8>) -> Seq<char>
    decreases b.len(),
{
    if b.len() == 0 {
        Seq::empty()
    } else {
        seq![hex_digit_lower(b[0] / 16), hex_digit_lower(b[0] % 16)] + hex_lower(b.drop_first())
    }
}

/// Last position of `c` in `s`.
pub open spec fn rfind_char(s: Seq<char>, c: char) -> Option<int>
    decreases s.len(),
{
    if s.len() == 0 {
        None
    } else if s.last() == c {
        Some(s.len() - 1)
    } else {
        rfind_char(s.drop_last(), c)
    }
}

// ---------------------------------------------------------------------------
// Lemmas
// ---------------------------------------------------------------------------

/// What `find_from` returns is an occurrence, and nothing before it (from `i` on) is.
pub proof fn lemma_find_from(hay: Seq<char>, needle: Seq<char>, i: int)
    requires
        0 <= i,
    ensures
        match find_from(hay, needle, i) {
            Some(k) => i <= k && occurs_at(hay, needle, k)
                && forall|j: int| i <= j < k ==> !occurs_at(hay, needle, j),
            None => forall|j: int| i <= j ==> !occurs_at(hay, needle, j),
        },
    decreases hay.len() + 1 - i,
{
    if i + needle.len() > hay.len() {
    } else if occurs_at(hay, needle, i) {
    } else {
        lemma_find_from(hay, needle, i + 1);
    }
}

/// `find` returns the first occurrence.
pub proof fn lemma_find(hay: Seq<char>, needle: Seq<char>)
    ensures
        match find(hay, needle) {
            Some(k) => occurs_at(hay, needle, k)
                && forall|j: int| 0 <= j < k ==> !occurs_at(hay, needle, j),
            None => forall|j: int| !occurs_at(hay, needle, j),
        },
{
    lemma_find_from(hay, needle, 0);
}

/// If no occurrence starts before `i`, searching from 0 and from `i` agree.
pub proof fn lemma_find_skip(hay: Seq<char>, needle: Seq<char>, i: int)
    requires
        0 <= i,
        forall|j: int| 0 <= j < i ==> !occurs_at(hay, needle, j),
    ensures
        find(hay, needle) == find_from(hay, needle, i),
    decreases i,
{
    if i > 0 {
        lemma_find_skip(hay, needle, i - 1);
        if i - 1 + needle.len() > hay.len() {
            lemma_find_from(hay, needle, i);
        }
    }
}

/// UTF-8 encoding distributes over concatenation.
pub proof fn lemma_encode_concat(a: Seq<char>, b: Seq<char>)
    ensures
        vstd::utf8::encode_utf8(a + b) == vstd::utf8::encode_utf8(a) + vstd::utf8::encode_utf8(b),
    decreases a.len(),
{
    if a.len() == 0 {
        assert(a + b =~= b);
        assert(vstd::utf8::encode_utf8(a) + vstd::utf8::encode_utf8(b) =~= vstd::utf8::encode_utf8(b));
    } else {
        lemma_encode_concat(a.drop_first(), b);
        assert((a + b).drop_first() =~= a.drop_first() + b);
        assert((a + b)[0] == a[0]);
        assert(vstd::utf8::encode_utf8(a + b) =~= vstd::utf8::encode_scalar(a[0] as u32) + (vstd::utf8::encode_utf8(a.drop_first()) + vstd::utf8::encode_utf8(b)));
    }
}

/// A character boundary of a valid sequence that lies within a prefix
/// ending at a boundary is a boundary of that prefix.
pub proof fn lemma_prefix_boundary(b: Seq<u8>, m: int, k: int)
    requires
        vstd::utf8::valid_utf8(b),
        vstd::utf8::is_char_boundary(b, m),
        vstd::utf8::is_char_boundary(b, k),
        0 <= k <= m <= b.len(),
    ensures
        vstd::utf8::valid_utf8(b.subrange(0, m)),
        vstd::utf8::is_char_boundary(b.subrange(0, m), k),
{
    vstd::utf8::valid_utf8_split(b, m);
    let p = b.subrange(0, m);
    vstd::utf8::is_char_boundary_start_end_of_seq(p);
    if 0 < k && k < m {
        vstd::utf8::is_char_boundary_iff_not_is_continuation_byte(b, k);
        vstd::utf8::is_char_boundary_iff_not_is_continuation_byte(p, k);
    }
}

// ---------------------------------------------------------------------------
// Executable operations
// ---------------------------------------------------------------------------

/// Appends one character to a string (std `String::push`).
#[verifier::external_body]
pub(crate) fn push_char(s: &mut String, c: char)
    ensures
        final(s)@ == old(s)@.push(c),
{
    s.push(c);
}

/// The characters of a string, as a vector.
pub fn chars_of(s: &str) -> (v: Vec<char>)
    ensures
        v@ == s@,
{
    let mut v: Vec<char> = Vec::new();
    for c in it: s.chars()
        invariant
            it.seq() == s@,
            v@ == it.seq().take(it.index()),
    {
        v.push(c);
    }
    v
}

/// A string holding exactly the given characters.
pub fn string_of(v: &Vec<char>) -> (s: String)
    ensures
        s@ == v@,
{
    let mut s = String::new();
    let mut i: usize = 0;
    while i < v.len()
        invariant
            i <= v.len(),
            s@ == v@.take(i as int),
        decreases v.len() - i,
    {
        push_char(&mut s, v[i]);
        i = i + 1;
        assert(v@.take(i as int) =~= v@.take((i - 1) as int).push(v@[i - 1]));
    }
    assert(v@.take(v.len() as int) =~= v@);
    s
}

/// A string holding the characters `v[from..to]`.
pub fn string_of_range(v: &Vec<char>, from: usize, to: usize) -> (s: String)
    requires
        from <= to <= v.len(),
    ensures
        s@ == v@.subrange(from as int, to as int),
{
    let mut s = String::new();
    let mut i: usize = from;
    while i < to
        invariant
            from <= i <= to <= v.len(),
            s@ == v@.subrange(from as int, i as int),
        decreases to - i,
    {
        push_char(&mut s, v[i]);
        i = i + 1;
        assert(v@.subrange(from as int, i as int) =~= v@.subrange(from as int, (i - 1) as int).push(v@[i - 1]));
    }
    s
}

/// Appends all characters of `t` to `s`.
pub fn push_all(s: &mut String, t: &str)
    ensures
        final(s)@ == old(s)@ + t@,
{
    let v = chars_of(t);
    let mut i: usize = 0;
    while i < v.len()
        invariant
            i <= v.len(),
            v@ == t@,
            s@ == old(s)@ + v@.take(i as int),
        decreases v.len() - i,
    {
        push_char(s, v[i]);
        i = i + 1;
        assert(old(s)@ + v@.take(i as int) =~= (old(s)@ + v@.take((i - 1) as int)).push(v@[i - 1]));
    }
    assert(v@.take(v.len() as int) =~= v@);
}

/// `a + b` as a new string.
pub fn concat(a: &str, b: &str) -> (s: String)
    ensures
        s@ == a@ + b@,
{
    let mut s = String::new();
    push_all(&mut s, a);
    push_all(&mut s, b);
    assert(Seq::<char>::empty() + a@ + b@ =~= a@ + b@);
    s
}

/// `a + b + c` as a new string.
pub fn concat3(a: &str, b: &str, c: &str) -> (s: String)
    ensures
        s@ == a@ + b@ + c@,
{
    let mut s = concat(a, b);
    push_all(&mut s, c);
    s
}

/// Whether two strings hold the same characters.
pub fn str_eq(a: &str, b: &str) -> (r: bool)
    ensures
        r == (a@ == b@),
{
    let va = chars_of(a);
    let vb = chars_of(b);
    if va.len() != vb.len() {
        return false;
    }
    let mut i: usize = 0;
    while i < va.len()
        invariant
            va@ == a@,
            vb@ == b@,
            va.len() == vb.len(),
            i <= va.len(),
            forall|j: int| 0 <= j < i ==> va@[j] == vb@[j],
        decreases va.len() - i,
    {
        if va[i] != vb[i] {
            return false;
        }
        i = i + 1;
    }
    assert(va@ =~= vb@);
    true
}

/// `char::is_whitespace`.
pub fn is_whitespace(c: char) -> (r: bool)
    ensures
        r == is_ws(c),
{
    let u = c as u32;
    (0x9 <= u && u <= 0xd) || u == 0x20 || u == 0x85 || u == 0xa0 || u == 0x1680
        || (0x2000 <= u && u <= 0x200a) || u == 0x2028 || u == 0x2029 || u == 0x202f
        || u == 0x205f || u == 0x3000
}

/// `char::is_ascii_alphanumeric`.
pub fn is_ascii_alphanumeric(c: char) -> (r: bool)
    ensures
        r == is_ascii_alnum(c),
{
    ('0' <= c && c <= '9') || ('a' <= c && c <= 'z') || ('A' <= c && c <= 'Z')
}

/// `char::to_ascii_lowercase`.
pub fn to_ascii_lowercase(c: char) -> (r: char)
    ensures
        r == ascii_lower(c),
{
    if 'A' <= c && c <= 'Z' {
        let u = (c as u8) + 32;
        u as char
    } else {
        c
    }
}

/// Index of the first non-whitespace character of `v[from..to]` (or `to`).
fn skip_ws_forward(v: &Vec<char>, from: usize, to: usize) -> (i: usize)
    requires
        from <= to <= v.len(),
    ensures
        from <= i <= to,
        trim_start(v@.subrange(from as int, to as int)) == v@.subrange(i as int, to as int),
{
    let mut i = from;
    while i < to && is_whitespace(v[i])
        invariant
            from <= i <= to <= v.len(),
            trim_start(v@.subrange(from as int, to as int)) == trim_start(v@.subrange(i as int, to as int)),
        decreases to - i,
    {
        assert(v@.subrange(i as int, to as int).drop_first() =~= v@.subrange(i + 1, to as int));
        i = i + 1;
    }
    i
}

/// `str::trim` on the characters `v[from..to]`, as a pair of bounds.
pub fn trim_bounds(v: &Vec<char>, from: usize, to: usize) -> (r: (usize, usize))
    requires
        from <= to <= v.len(),
    ensures
        from <= r.0 <= r.1 <= to,
        trim(v@.subrange(from as int, to as int)) == v@.subrange(r.0 as int, r.1 as int),
{
    let i = skip_ws_forward(v, from, to);
    let mut j = to;
    while j > i && is_whitespace(v[j - 1])
        invariant
            from <= i <= j <= to <= v.len(),
            trim_end(v@.subrange(i as int, to as int)) == trim_end(v@.subrange(i as int, j as int)),
        decreases j - i,
    {
        assert(v@.subrange(i as int, j as int).drop_last() =~= v@.subrange(i as int, j - 1));
        j = j - 1;
    }
    (i, j)
}

/// `str::trim`.
pub fn trim_str(s: &str) -> (r: String)
    ensures
        r@ == trim(s@),
{
    let v = chars_of(s);
    let (i, j) = trim_bounds(&v, 0, v.len());
    assert(v@.subrange(0, v.len() as int) =~= v@);
    string_of_range(&v, i, j)
}

/// Whether `needle` occurs in `hay` at position `i`.
pub fn matches_at(hay: &Vec<char>, needle: &Vec<char>, i: usize) -> (r: bool)
    ensures
        r == occurs_at(hay@, needle@, i as int),
{
    if needle.len() > hay.len() || i > hay.len() - needle.len() {
        return false;
    }
    let mut k: usize = 0;
    while k < needle.len()
        invariant
            i + needle.len() <= hay.len(),
            k <= needle.len(),
            forall|j: int| 0 <= j < k ==> hay@[i + j] == needle@[j],
        decreases needle.len() - k,
    {
        if hay[i + k] != needle[k] {
            assert(hay@.subrange(i as int, i + needle.len())[k as int] != needle@[k as int]);
            return false;
        }
        k = k + 1;
    }
    assert(hay@.subrange(i as int, i + needle.len()) =~= needle@);
    true
}

/// First occurrence of `needle` in `hay` at a position `>= from`.
pub fn find_vec_from(hay: &Vec<char>, needle: &Vec<char>, from: usize) -> (r: Option<usize>)
    ensures
        r matches Some(k) ==> find_from(hay@, needle@, from as int) == Some(k as int),
        r is None ==> find_from(hay@, needle@, from as int) is None,
        r matches Some(k) ==> from <= k && k + needle.len() <= hay.len(),
{
    proof {
        lemma_find_from(hay@, needle@, from as int);
    }
    if needle.len() > hay.len() || from > hay.len() - needle.len() {
        return None;
    }
    let mut i = from;
    while i <= hay.len() - needle.len()
        invariant
            needle.len() <= hay.len(),
            from <= i <= hay.len() - needle.len() + 1,
            find_from(hay@, needle@, from as int) == find_from(hay@, needle@, i as int),
        decreases hay.len() - needle.len() + 1 - i,
    {
        if matches_at(hay, needle, i) {
            return Some(i);
        }
        if i == hay.len() - needle.len() {
            assert(find_from(hay@, needle@, i + 1) is None);
            assert(find_from(hay@, needle@, i as int) is None);
            return None;
        }
        i = i + 1;
    }
    None
}

/// `str::find` on character vectors.
pub fn find_vec(hay: &Vec<char>, needle: &Vec<char>) -> (r: Option<usize>)
    ensures
        r matches Some(k) ==> find(hay@, needle@) == Some(k as int),
        r is None ==> find(hay@, needle@) is None,
        r matches Some(k) ==> k + needle.len() <= hay.len(),
{
    find_vec_from(hay, needle, 0)
}

/// `str::contains`.
pub fn str_contains(hay: &str, needle: &str) -> (r: bool)
    ensures
        r == contains(hay@, needle@),
{
    let h = chars_of(hay);
    let n = chars_of(needle);
    find_vec(&h, &n).is_some()
}

/// `str::starts_with`.
pub fn str_starts_with(s: &str, p: &str) -> (r: bool)
    ensures
        r == starts_with(s@, p@),
{
    let h = chars_of(s);
    let n = chars_of(p);
    let r = matches_at(&h, &n, 0);
    assert(r ==> h@.subrange(0, n@.len() as int) =~= h@.take(n@.len() as int));
    assert(starts_with(s@, p@) ==> h@.subrange(0, n@.len() as int) =~= h@.take(n@.len() as int));
    r
}

/// `str::ends_with`.
pub fn str_ends_with(s: &str, p: &str) -> (r: bool)
    ensures
        r == ends_with(s@, p@),
{
    let h = chars_of(s);
    let n = chars_of(p);
    if n.len() > h.len() {
        return false;
    }
    let r = matches_at(&h, &n, h.len() - n.len());
    assert(h@.subrange(h.len() - n.len(), h.len() as int) =~= h@.skip(h.len() - n.len()));
    r
}

/// The decimal representation of an unsigned integer (`u64::to_string`).
pub fn decimal_string(n: u64) -> (s: String)
    ensures
        s@ == decimal(n as nat),
    decreases n,
{
    if n < 10 {
        let mut s = String::new();
        push_char(&mut s, ((n as u8) + 48) as char);
        assert(s@ =~= seq![digit_char(n as nat)]);
        s
    } else {
        let mut s = decimal_string(n / 10);
        let d = (n % 10) as u8;
        push_char(&mut s, (d + 48) as char);
        s
    }
}


/// The character views of a sequence of strings.
pub open spec fn views(v: Seq<String>) -> Seq<Seq<char>> {
    v.map_values(|s: String| s@)
}

/// `views` distributes over `push`.
pub proof fn lemma_views_push(a: Seq<String>, x: String)
    ensures
        views(a.push(x)) == views(a).push(x@),
{
    assert(views(a.push(x)) =~= views(a).push(x@));
}

/// A copy of `v[from..to]`.
pub fn subvec(v: &Vec<char>, from: usize, to: usize) -> (r: Vec<char>)
    requires
        from <= to <= v.len(),
    ensures
        r@ == v@.subrange(from as int, to as int),
{
    let mut r: Vec<char> = Vec::new();
    let mut i = from;
    while i < to
        invariant
            from <= i <= to <= v.len(),
            r@ == v@.subrange(from as int, i as int),
        decreases to - i,
    {
        r.push(v[i]);
        i = i + 1;
        assert(r@ =~= v@.subrange(from as int, i as int));
    }
    r
}

/// `str::replace` with a non-empty pattern.
pub fn replace_str(s: &str, from: &str, to: &str) -> (r: String)
    requires
        from@.len() > 0,
    ensures
        r@ == replace_all(s@, from@, to@),
{
    let n = chars_of(from);
    let mut rest = chars_of(s);
    let mut out = String::new();
    loop
        invariant_except_break
            n@ == from@,
            n@.len() > 0,
            out@ + replace_all(rest@, from@, to@) == replace_all(s@, from@, to@),
        ensures
            out@ == replace_all(s@, from@, to@),
        decreases rest.len(),
    {
        match find_vec(&rest, &n) {
            None => {
                let tail = string_of(&rest);
                push_all(&mut out, tail.as_str());
                break;
            },
            Some(i) => {
                let ghost old_out = out@;
                let head = string_of_range(&rest, 0, i);
                push_all(&mut out, head.as_str());
                push_all(&mut out, to);
                let next = subvec(&rest, i + n.len(), rest.len());
                assert(rest@.subrange(0, i as int) =~= rest@.take(i as int));
                assert(next@ =~= rest@.skip(i + n@.len()));
                assert(replace_all(rest@, from@, to@) == rest@.take(i as int) + to@ + replace_all(next@, from@, to@));
                assert(out@ + replace_all(next@, from@, to@) =~= old_out + (rest@.take(i as int) + to@ + replace_all(next@, from@, to@)));
                rest = next;
            },
        }
    }
    out
}

/// `str::replacen(from, to, 1)`.
pub fn replace_first_str(s: &str, from: &str, to: &str) -> (r: String)
    ensures
        r@ == replace_first(s@, from@, to@),
{
    let n = chars_of(from);
    let h = chars_of(s);
    match find_vec(&h, &n) {
        None => string_of(&h),
        Some(i) => {
            let mut out = string_of_range(&h, 0, i);
            push_all(&mut out, to);
            let tail = string_of_range(&h, i + n.len(), h.len());
            push_all(&mut out, tail.as_str());
            assert(h@.subrange(0, i as int) =~= h@.take(i as int));
            assert(h@.subrange(i + n@.len(), h@.len() as int) =~= h@.skip(i + n@.len()));
            assert(out@ =~= h@.take(i as int) + to@ + h@.skip(i + from@.len()));
            out
        },
    }
}

/// `str::split` on a single character, collected into owned strings.
pub fn split_on(s: &str, sep: char) -> (r: Vec<String>)
    ensures
        views(r@) == split_char(s@, sep),
{
    let n: Vec<char> = vec![sep];
    let mut rest = chars_of(s);
    let mut out: Vec<String> = Vec::new();
    loop
        invariant_except_break
            n@ == seq![sep],
            views(out@) + split_char(rest@, sep) == split_char(s@, sep),
        ensures
            views(out@) == split_char(s@, sep),
        decreases rest.len(),
    {
        match find_vec(&rest, &n) {
            None => {
                let piece = string_of(&rest);
                let ghost old_out = out@;
                out.push(piece);
                assert(views(out@) =~= views(old_out) + seq![rest@]);
                break;
            },
            Some(i) => {
                let piece = string_of_range(&rest, 0, i);
                let next = subvec(&rest, i + 1, rest.len());
                let ghost old_out = out@;
                out.push(piece);
                assert(rest@.subrange(0, i as int) =~= rest@.take(i as int));
                assert(next@ =~= rest@.skip(i + 1));
                assert(split_char(rest@, sep) == seq![rest@.take(i as int)] + split_char(next@, sep));
                assert(views(out@) =~= views(old_out) + seq![rest@.take(i as int)]);
                assert(views(out@) + split_char(next@, sep) =~= views(old_out) + (seq![rest@.take(i as int)] + split_char(next@, sep)));
                rest = next;
            },
        }
    }
    out
}

/// `parts.join(sep)`.
pub fn join_strs(parts: &Vec<String>, sep: &str) -> (r: String)
    ensures
        r@ == join(views(parts@), sep@),
{
    let mut out = String::new();
    let mut i: usize = 0;
    while i < parts.len()
        invariant
            i <= parts.len(),
            out@ == join(views(parts@).take(i as int), sep@),
        decreases parts.len() - i,
    {
        let ghost prev = views(parts@).take(i as int);
        if i > 0 {
            push_all(&mut out, sep);
        }
        push_all(&mut out, parts[i].as_str());
        i = i + 1;
        assert(views(parts@).take(i as int).drop_last() =~= prev);
        if i == 1 {
            assert(join(prev, sep@) =~= Seq::<char>::empty());
        }
    }
    assert(views(parts@).take(parts.len() as int) =~= views(parts@));
    out
}

/// Length of the run of non-whitespace characters starting at `from`.
fn word_end(v: &Vec<char>, from: usize) -> (j: usize)
    requires
        from <= v.len(),
    ensures
        from <= j <= v.len(),
        j - from == word_len(v@.skip(from as int)),
{
    let mut j = from;
    while j < v.len() && !is_whitespace(v[j])
        invariant
            from <= j <= v.len(),
            word_len(v@.skip(from as int)) == (j - from) + word_len(v@.skip(j as int)),
        decreases v.len() - j,
    {
        assert(v@.skip(j as int).drop_first() =~= v@.skip(j + 1));
        j = j + 1;
    }
    j
}

/// `str::split_whitespace`, collected into owned strings.
pub fn split_whitespace(s: &str) -> (r: Vec<String>)
    ensures
        views(r@) == words(s@),
{
    let v = chars_of(s);
    let mut out: Vec<String> = Vec::new();
    let mut i: usize = 0;
    assert(v@.skip(0) =~= v@);
    while i < v.len()
        invariant
            v@ == s@,
            i <= v.len(),
            views(out@) + words(v@.skip(i as int)) == words(s@),
        decreases v.len() - i,
    {
        if is_whitespace(v[i]) {
            assert(v@.skip(i as int).drop_first() =~= v@.skip(i + 1));
            i = i + 1;
        } else {
            let j = word_end(&v, i);
            let piece = string_of_range(&v, i, j);
            let ghost old_out = out@;
            let ghost rest = v@.skip(i as int);
            assert(rest.drop_first() =~= v@.skip(i + 1));
            assert(j > i);
            assert(rest.take((j - i) as int) =~= v@.subrange(i as int, j as int));
            assert(rest.skip((j - i) as int) =~= v@.skip(j as int));
            out.push(piece);
            assert(views(out@) =~= views(old_out) + seq![v@.subrange(i as int, j as int)]);
            assert(views(out@) + words(v@.skip(j as int)) =~= views(old_out) + (seq![rest.take((j - i) as int)] + words(rest.skip((j - i) as int))));
            i = j;
        }
    }
    assert(words(v@.skip(i as int)) =~= Seq::<Seq<char>>::empty());
    assert(views(out@) + Seq::<Seq<char>>::empty() =~= views(out@));
    out
}

/// `str::lines`, collected into owned strings.
pub fn lines_of(s: &str) -> (r: Vec<String>)
    ensures
        views(r@) == lines(s@),
{
    let n: Vec<char> = vec!['\n'];
    let mut rest = chars_of(s);
    let mut out: Vec<String> = Vec::new();
    while rest.len() > 0
        invariant
            n@ == seq!['\n'],
            views(out@) + lines(rest@) == lines(s@),
        decreases rest.len(),
    {
        let ghost old_out = out@;
        match find_vec(&rest, &n) {
            None => {
                let piece = string_of(&rest);
                out.push(piece);
                assert(views(out@) =~= views(old_out) + seq![rest@]);
                rest = Vec::new();
                assert(views(out@) + lines(rest@) =~= views(out@));
            },
            Some(i) => {
                let mut end = i;
                if i > 0 && rest[i - 1] == '\r' {
                    end = i - 1;
                }
                let piece = string_of_range(&rest, 0, end);
                let next = subvec(&rest, i + 1, rest.len());
                assert(rest@.subrange(0, end as int) =~= strip_cr(rest@.take(i as int)));
                assert(next@ =~= rest@.skip(i + 1));
                assert(lines(rest@) == seq![strip_cr(rest@.take(i as int))] + lines(next@));
                out.push(piece);
                assert(views(out@) =~= views(old_out) + seq![strip_cr(rest@.take(i as int))]);
                assert(views(out@) + lines(next@) =~= views(old_out) + (seq![strip_cr(rest@.take(i as int))] + lines(next@)));
                rest = next;
            },
        }
    }
    assert(views(out@) + lines(rest@) =~= views(out@));
    out
}


/// `str::rfind` for one character, on a character vector.
pub fn rfind_char_vec(v: &Vec<char>, c: char) -> (r: Option<usize>)
    ensures
        r matches Some(k) ==> rfind_char(v@, c) == Some(k as int) && k < v.len(),
        r is None ==> rfind_char(v@, c) is None,
{
    let mut j = v.len();
    assert(v@.take(j as int) =~= v@);
    while j > 0
        invariant
            j <= v.len(),
            rfind_char(v@, c) == rfind_char(v@.take(j as int), c),
        decreases j,
    {
        assert(v@.take(j as int).drop_last() =~= v@.take(j - 1));
        if v[j - 1] == c {
            return Some(j - 1);
        }
        j = j - 1;
    }
    None
}


/// Unicode lowercase mapping of a string (`str::to_lowercase`).
pub uninterp spec fn unicode_lowercase(s: Seq<char>) -> Seq<char>;

/// `str::to_lowercase`: the string with every character mapped to its
/// Unicode lowercase form.
#[verifier::external_body]
pub(crate) fn lowercase(s: &str) -> (r: String)
    ensures
        r@ == unicode_lowercase(s@),
{
    s.to_lowercase()
}

} // verus!
