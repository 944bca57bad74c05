//! Character-level helpers on strings, each specified over `Seq<char>`.
use vstd::prelude::*;
use vstd::string::*;

verus! {

/// Appends one character to a string: std's `String::push`.
/// Trusted to add exactly `c` at the end and change nothing else.
#[verifier::external_body]
pub(crate) fn push_char(s: &mut String, c: char)
    ensures
        final(s)@ == old(s)@.push(c),
{
    s.push(c);
}

/// The ASCII character of a decimal digit.
pub open spec fn digit_char(d: nat) -> char {
    (d + 48) as char
}

/// Decimal rendering of a natural number, most significant digit first,
/// without leading zeros (as `u64`'s `Display` writes it).
pub open spec fn decimal(n: nat) -> Seq<char>
    decreases n,
{
    if n < 10 {
        seq![digit_char(n)]
    } else {
        decimal(n / 10).push(digit_char(n % 10))
    }
}

fn digit(d: u64) -> (c: char)
    requires
        d < 10,
    ensures
        c == digit_char(d as nat),
{
    let b: u8 = 48u8 + (d as u8);
    b as char
}

/// Appends the decimal rendering of `n` to `s`.
pub fn push_decimal(s: &mut String, n: u64)
    ensures
        final(s)@ == old(s)@ + decimal(n as nat),
    decreases n,
{
    if n >= 10 {
        push_decimal(s, n / 10);
    }
    push_char(s, digit(n % 10));
    proof {
        if n >= 10 {
            assert(old(s)@ + decimal(n as nat) =~= (old(s)@ + decimal((n / 10) as nat)).push(
                digit_char((n % 10) as nat),
            ));
        } else {
            assert(old(s)@ + decimal(n as nat) =~= old(s)@.push(digit_char(n as nat)));
        }
    }
}

/// The decimal rendering of `n` as a new string.
pub fn decimal_string(n: u64) -> (res: String)
    ensures
        res@ == decimal(n as nat),
{
    let mut s = String::new();
    push_decimal(&mut s, n);
    assert(s@ =~= decimal(n as nat));
    s
}

/// A lowercase hexadecimal digit.
pub open spec fn hex_char(d: nat) -> char {
    if d < 10 {
        (d + 48) as char
    } else {
        (d + 87) as char
    }
}

/// Lowercase hexadecimal rendering of bytes, two digits per byte.
pub open spec fn hex_lower(bytes: Seq<u8>) -> Seq<char>
    decreases bytes.len(),
{
    if bytes.len() == 0 {
        Seq::empty()
    } else {
        hex_lower(bytes.drop_last()).push(hex_char(bytes.last() as nat / 16)).push(
            hex_char(bytes.last() as nat % 16),
        )
    }
}

fn hex_digit(d: u8) -> (c: char)
    requires
        d < 16,
    ensures
        c == hex_char(d as nat),
{
    if d < 10 {
        (48u8 + d) as char
    } else {
        (87u8 + d) as char
    }
}

/// Lowercase hexadecimal encoding of a byte slice.
pub fn to_hex_lower(bytes: &[u8]) -> (res: String)
    ensures
        res@ == hex_lower(bytes@),
{
    let mut s = String::new();
    let n = bytes.len();
    let mut i: usize = 0;
    while i < n
        invariant
            n == bytes@.len(),
            i <= n,
            s@ == hex_lower(bytes@.subrange(0, i as int)),
        decreases n - i,
    {
        let b = bytes[i];
        push_char(&mut s, hex_digit(b / 16));
        push_char(&mut s, hex_digit(b % 16));
        proof {
            let pre = bytes@.subrange(0, i + 1);
            assert(pre.drop_last() =~= bytes@.subrange(0, i as int));
            assert(pre.last() == b);
        }
        i = i + 1;
    }
    assert(bytes@.subrange(0, n as int) =~= bytes@);
    s
}

/// Whether a path is absolute: on Unix, it begins with `/`.
pub open spec fn is_absolute(p: Seq<char>) -> bool {
    p.len() > 0 && p[0] == '/'
}

/// `Path::join` on Unix: an absolute `p` replaces `base`; otherwise `p`
/// is appended, with a `/` in between unless `base` is empty or already
/// ends with one.
pub open spec fn joined(base: Seq<char>, p: Seq<char>) -> Seq<char> {
    if is_absolute(p) {
        p
    } else if base.len() > 0 && base.last() != '/' {
        base + seq!['/'] + p
    } else {
        base + p
    }
}

/// Whether a path string is absolute.
pub fn is_absolute_path(p: &str) -> (res: bool)
    ensures
        res == is_absolute(p@),
{
    p.unicode_len() > 0 && p.get_char(0) == '/'
}

/// Joins a path onto a base path, as `Path::join` does on Unix.
pub fn join_path(base: &str, p: &str) -> (res: String)
    ensures
        res@ == joined(base@, p@),
{
    if is_absolute_path(p) {
        return String::from_str(p);
    }
    let n = base.unicode_len();
    let mut s = String::from_str(base);
    if n > 0 && base.get_char(n - 1) != '/' {
        push_char(&mut s, '/');
    }
    s.append(p);
    s
}

/// The views of a list of strings.
pub open spec fn views(v: Seq<String>) -> Seq<Seq<char>> {
    v.map_values(|s: String| s@)
}

/// The characters of a string slice, in order.
pub fn chars_of(s: &str) -> (v: Vec<char>)
    ensures
        v@ == s@,
{
    broadcast use vstd::string::axiom_spec_iter;

    let mut v: Vec<char> = Vec::new();
    for c in it: s.chars()
        invariant
            it.seq() == s@,
            v@ == it.seq().take(it.index() as int),
    {
        v.push(c);
    }
    v
}

/// A string holding exactly the given characters.
pub fn string_of(v: &Vec<char>) -> (s: String)
    ensures
        s@ == v@,
{
    let mut s = String::new();
    let n = v.len();
    let mut i: usize = 0;
    while i < n
        invariant
            n == v@.len(),
            i <= n,
            s@ == v@.subrange(0, i as int),
        decreases n - i,
    {
        push_char(&mut s, v[i]);
        assert(v@.subrange(0, i + 1) =~= v@.subrange(0, i as int).push(v@[i as int]));
        i = i + 1;
    }
    assert(v@.subrange(0, n as int) =~= v@);
    s
}

/// The characters `v[a..b]` as a new vector.
pub fn sub_chars(v: &Vec<char>, a: usize, b: usize) -> (r: Vec<char>)
    requires
        a <= b <= v@.len(),
    ensures
        r@ == v@.subrange(a as int, b as int),
{
    let mut r: Vec<char> = Vec::new();
    let mut i: usize = a;
    while i < b
        invariant
            a <= i <= b,
            b <= v@.len(),
            r@ == v@.subrange(a as int, i as int),
        decreases b - i,
    {
        r.push(v[i]);
        assert(v@.subrange(a as int, i + 1) =~= v@.subrange(a as int, i as int).push(
            v@[i as int],
        ));
        i = i + 1;
    }
    r
}

/// Whether `p` occurs in `s` at position `start`.
pub open spec fn occurs_at(s: Seq<char>, p: Seq<char>, start: int) -> bool {
    0 <= start && start + p.len() <= s.len() && s.subrange(start, start + p.len()) == p
}

/// Whether `p` occurs in `v` at position `start`.
pub fn matches_at(v: &Vec<char>, p: &Vec<char>, start: usize) -> (res: bool)
    ensures
        res == occurs_at(v@, p@, start as int),
{
    let n = v.len();
    let m = p.len();
    if start > n || m > n - start {
        return false;
    }
    let mut k: usize = 0;
    while k < m
        invariant
            n == v@.len(),
            m == p@.len(),
            start + m <= n,
            k <= m,
            forall|j: int| 0 <= j < k ==> v@[start + j] == p@[j],
        decreases m - k,
    {
        if v[start + k] != p[k] {
            assert(v@.subrange(start as int, start + m)[k as int] != p@[k as int]);
            return false;
        }
        k = k + 1;
    }
    assert(v@.subrange(start as int, start + m) =~= p@);
    true
}

/// Character-wise equality of two string slices.
pub fn str_equal(a: &str, b: &str) -> (res: bool)
    ensures
        res == (a@ == b@),
{
    let va = chars_of(a);
    let vb = chars_of(b);
    if va.len() != vb.len() {
        return false;
    }
    let r = matches_at(&va, &vb, 0);
    assert(va@.subrange(0, vb@.len() as int) =~= va@);
    r
}

/// Unicode `White_Space`, the set that `char::is_whitespace` and `str::trim` use.
pub open spec fn is_ws(c: char) -> bool {
    let u = c as u32;
    ||| 9 <= u <= 13
    ||| u == 32
    ||| u == 0x85
    ||| u == 0xA0
    ||| u == 0x1680
    ||| 0x2000 <= u <= 0x200A
    ||| u == 0x2028
    ||| u == 0x2029
    ||| u == 0x202F
    ||| u == 0x205F
    ||| u == 0x3000
}

/// Whether a character is white space.
pub fn is_whitespace(c: char) -> (res: bool)
    ensures
        res == is_ws(c),
{
    let u = c as u32;
    (9 <= u && u <= 13) || u == 32 || u == 0x85 || u == 0xA0 || u == 0x1680 || (0x2000 <= u
        && u <= 0x200A) || u == 0x2028 || u == 0x2029 || u == 0x202F || u == 0x205F || u == 0x3000
}

/// `s` without its leading white space.
pub open spec fn trim_start_ws(s: Seq<char>) -> Seq<char>
    decreases s.len(),
{
    if s.len() > 0 && is_ws(s[0]) {
        trim_start_ws(s.subrange(1, s.len() as int))
    } else {
        s
    }
}

/// `s` without its trailing white space.
pub open spec fn trim_end_ws(s: Seq<char>) -> Seq<char>
    decreases s.len(),
{
    if s.len() > 0 && is_ws(s.last()) {
        trim_end_ws(s.drop_last())
    } else {
        s
    }
}

/// `str::trim`: `s` without leading and trailing white space.
pub open spec fn trim_ws(s: Seq<char>) -> Seq<char> {
    trim_end_ws(trim_start_ws(s))
}

/// `v` without leading and trailing white space.
pub fn trim_whitespace(v: &Vec<char>) -> (r: Vec<char>)
    ensures
        r@ == trim_ws(v@),
{
    let n = v.len();
    let mut a: usize = 0;
    assert(v@.subrange(0, n as int) =~= v@);
    while a < n && is_whitespace(v[a])
        invariant
            n == v@.len(),
            a <= n,
            trim_start_ws(v@) == trim_start_ws(v@.subrange(a as int, n as int)),
        decreases n - a,
    {
        assert(v@.subrange(a as int, n as int).subrange(1, n - a) =~= v@.subrange(
            a + 1,
            n as int,
        ));
        a = a + 1;
    }
    assert(trim_start_ws(v@) == v@.subrange(a as int, n as int));
    let mut b: usize = n;
    while b > a && is_whitespace(v[b - 1])
        invariant
            n == v@.len(),
            a <= b <= n,
            trim_ws(v@) == trim_end_ws(v@.subrange(a as int, b as int)),
        decreases b - a,
    {
        assert(v@.subrange(a as int, b as int).drop_last() =~= v@.subrange(
            a as int,
            b - 1,
        ));
        b = b - 1;
    }
    sub_chars(v, a, b)
}

/// `s` with every trailing copy of `p` removed (`str::trim_end_matches`).
pub open spec fn strip_suffix_repeated(s: Seq<char>, p: Seq<char>) -> Seq<char>
    decreases s.len(),
{
    if p.len() > 0 && occurs_at(s, p, s.len() - p.len()) {
        strip_suffix_repeated(s.subrange(0, s.len() - p.len()), p)
    } else {
        s
    }
}

/// `v` with every trailing copy of `p` removed.
pub fn strip_suffixes(v: &Vec<char>, p: &Vec<char>) -> (r: Vec<char>)
    ensures
        r@ == strip_suffix_repeated(v@, p@),
{
    let m = p.len();
    let mut b: usize = v.len();
    if m == 0 {
        return sub_chars(v, 0, b);
    }
    assert(v@.subrange(0, b as int) =~= v@);
    let mut done = false;
    while !done
        invariant
            m == p@.len(),
            m > 0,
            b <= v@.len(),
            strip_suffix_repeated(v@, p@) == strip_suffix_repeated(
                v@.subrange(0, b as int),
                p@,
            ),
            done ==> strip_suffix_repeated(v@, p@) == v@.subrange(0, b as int),
        decreases b + if done { 0int } else { 1int },
    {
        let ghost t = v@.subrange(0, b as int);
        if b >= m && matches_at(v, p, b - m) {
            assert(occurs_at(t, p@, b - m)) by {
                assert(t.subrange(b - m, b as int) =~= v@.subrange(b - m, b as int));
            }
            assert(t.subrange(0, b - m) =~= v@.subrange(0, b - m));
            b = b - m;
        } else {
            assert(!occurs_at(t, p@, t.len() - m)) by {
                if b >= m {
                    assert(t.subrange(b - m, b as int) =~= v@.subrange(b - m, b as int));
                }
            }
            done = true;
        }
    }
    sub_chars(v, 0, b)
}

/// An occurrence of `p` in `s` ends at `e`.
pub open spec fn occurs_ending_at(s: Seq<char>, p: Seq<char>, e: int) -> bool {
    occurs_at(s, p, e - p.len())
}

/// `e` is where the last occurrence of `p` in `s` ends.
pub open spec fn is_last_end(s: Seq<char>, p: Seq<char>, e: int) -> bool {
    &&& occurs_ending_at(s, p, e)
    &&& forall|f: int| e < f <= s.len() ==> !occurs_ending_at(s, p, f)
}

/// The first piece that `str::rsplit(p)` yields: what follows the last
/// occurrence of `p`, or all of `s` where `p` does not occur.
pub open spec fn after_last(s: Seq<char>, p: Seq<char>) -> Seq<char> {
    if exists|e: int| is_last_end(s, p, e) {
        s.subrange(choose|e: int| is_last_end(s, p, e), s.len() as int)
    } else {
        s
    }
}

/// What follows the last occurrence of `p` in `v`, or all of `v`.
pub fn after_last_occurrence(v: &Vec<char>, p: &Vec<char>) -> (r: Vec<char>)
    ensures
        r@ == after_last(v@, p@),
{
    let n = v.len();
    let m = p.len();
    if m > n {
        assert forall|e: int| !is_last_end(v@, p@, e) by {}
        return sub_chars(v, 0, n);
    }
    let mut e: usize = n;
    loop
        invariant
            n == v@.len(),
            m == p@.len(),
            m <= e <= n,
            forall|f: int| e < f <= n ==> !occurs_ending_at(v@, p@, f),
        decreases e,
    {
        if matches_at(v, p, e - m) {
            assert(is_last_end(v@, p@, e as int));
            assert forall|g: int| is_last_end(v@, p@, g) implies g == e by {
                if g < e {
                    assert(occurs_ending_at(v@, p@, e as int));
                }
            }
            return sub_chars(v, e, n);
        }
        if e == m {
            assert forall|g: int| !is_last_end(v@, p@, g) by {
                if occurs_ending_at(v@, p@, g) {
                    assert(g - m >= 0);
                }
            }
            return sub_chars(v, 0, n);
        }
        e = e - 1;
    }
}

/// `s` without its leading `:` and `/` characters
/// (`str::trim_start_matches([':', '/'])`).
pub open spec fn trim_separators(s: Seq<char>) -> Seq<char>
    decreases s.len(),
{
    if s.len() > 0 && (s[0] == ':' || s[0] == '/') {
        trim_separators(s.subrange(1, s.len() as int))
    } else {
        s
    }
}

/// `v` without its leading `:` and `/` characters.
pub fn trim_leading_separators(v: &Vec<char>) -> (r: Vec<char>)
    ensures
        r@ == trim_separators(v@),
{
    let n = v.len();
    let mut a: usize = 0;
    assert(v@.subrange(0, n as int) =~= v@);
    while a < n && (v[a] == ':' || v[a] == '/')
        invariant
            n == v@.len(),
            a <= n,
            trim_separators(v@) == trim_separators(v@.subrange(a as int, n as int)),
        decreases n - a,
    {
        assert(v@.subrange(a as int, n as int).subrange(1, n - a) =~= v@.subrange(
            a + 1,
            n as int,
        ));
        a = a + 1;
    }
    sub_chars(v, a, n)
}

/// The number of non-empty pieces of `s` split at `/`.
pub open spec fn segment_count(s: Seq<char>) -> nat
    decreases s.len(),
{
    if s.len() == 0 {
        0
    } else {
        segment_count(s.drop_last()) + if s.last() != '/' && (s.len() == 1 || s[s.len() - 2]
            == '/') {
            1nat
        } else {
            0nat
        }
    }
}

/// The number of non-empty pieces of `v` split at `/`.
pub fn count_segments(v: &Vec<char>) -> (c: usize)
    ensures
        c == segment_count(v@),
{
    let n = v.len();
    let mut c: usize = 0;
    let mut i: usize = 0;
    while i < n
        invariant
            n == v@.len(),
            i <= n,
            c == segment_count(v@.subrange(0, i as int)),
            c <= i,
        decreases n - i,
    {
        let ghost t = v@.subrange(0, i + 1);
        assert(t.drop_last() =~= v@.subrange(0, i as int));
        if v[i] != '/' && (i == 0 || v[i - 1] == '/') {
            c = c + 1;
        }
        i = i + 1;
    }
    assert(v@.subrange(0, n as int) =~= v@);
    c
}

/// A non-empty run without `/` is one piece.
pub proof fn lemma_segments_of_component(s: Seq<char>)
    requires
        s.len() > 0,
        forall|i: int| 0 <= i < s.len() ==> s[i] != '/',
    ensures
        segment_count(s) == 1,
    decreases s.len(),
{
    if s.len() > 1 {
        lemma_segments_of_component(s.drop_last());
    }
    assert(segment_count(s.drop_last()) == 0 || s.len() > 1);
}

/// Joining at a `/` adds the pieces of both sides.
pub proof fn lemma_segments_of_join(a: Seq<char>, b: Seq<char>)
    ensures
        segment_count(a + seq!['/'] + b) == segment_count(a) + segment_count(b),
    decreases b.len(),
{
    let s = a + seq!['/'] + b;
    if b.len() == 0 {
        assert(s.drop_last() =~= a);
    } else {
        lemma_segments_of_join(a, b.drop_last());
        assert(s.drop_last() =~= a + seq!['/'] + b.drop_last());
        assert(s.last() == b.last());
        if b.len() >= 2 {
            assert(s[s.len() - 2] == b[b.len() - 2]);
        } else {
            assert(s[s.len() - 2] == '/');
        }
    }
}

/// Two non-empty runs without `/`, joined at a `/`, are two pieces.
pub proof fn lemma_segments_of_pair(a: Seq<char>, b: Seq<char>)
    requires
        a.len() > 0,
        b.len() > 0,
        forall|i: int| 0 <= i < a.len() ==> a[i] != '/',
        forall|i: int| 0 <= i < b.len() ==> b[i] != '/',
    ensures
        segment_count(a + seq!['/'] + b) == 2,
{
    lemma_segments_of_component(a);
    lemma_segments_of_component(b);
    lemma_segments_of_join(a, b);
}

/// `r` is what is left of `s` after cutting something off its front.
pub open spec fn is_suffix_of(r: Seq<char>, s: Seq<char>) -> bool {
    r.len() <= s.len() && r == s.subrange(s.len() - r.len(), s.len() as int)
}

/// Being a suffix is transitive.
pub proof fn lemma_suffix_of_suffix(a: Seq<char>, b: Seq<char>, c: Seq<char>)
    requires
        is_suffix_of(a, b),
        is_suffix_of(b, c),
    ensures
        is_suffix_of(a, c),
{
    assert(a =~= c.subrange(c.len() - a.len(), c.len() as int));
}

/// Stripping repeated copies of a non-empty `p` leaves a prefix of `s` that
/// does not end in `p`.
pub proof fn lemma_strip_suffix_repeated_shape(s: Seq<char>, p: Seq<char>)
    requires
        p.len() > 0,
    ensures
        strip_suffix_repeated(s, p).len() <= s.len(),
        strip_suffix_repeated(s, p) == s.subrange(0, strip_suffix_repeated(s, p).len() as int),
        !occurs_at(
            strip_suffix_repeated(s, p),
            p,
            strip_suffix_repeated(s, p).len() - p.len(),
        ),
    decreases s.len(),
{
    if occurs_at(s, p, s.len() - p.len()) {
        let t = s.subrange(0, s.len() - p.len());
        lemma_strip_suffix_repeated_shape(t, p);
        let r = strip_suffix_repeated(t, p);
        assert(r =~= s.subrange(0, r.len() as int));
    } else {
        assert(s =~= s.subrange(0, s.len() as int));
    }
}

/// Where `p` ends somewhere in `s`, it ends somewhere last.
pub proof fn lemma_last_end_exists(s: Seq<char>, p: Seq<char>, f: int)
    requires
        occurs_ending_at(s, p, f),
    ensures
        exists|e: int| is_last_end(s, p, e),
    decreases s.len() - f,
{
    if !is_last_end(s, p, f) {
        let g = choose|g: int| f < g <= s.len() && occurs_ending_at(s, p, g);
        lemma_last_end_exists(s, p, g);
    }
}

/// What follows the last `p` in `s` is a suffix of `s` in which `p` does not occur.
pub proof fn lemma_after_last_shape(s: Seq<char>, p: Seq<char>)
    requires
        p.len() > 0,
    ensures
        is_suffix_of(after_last(s, p), s),
        forall|k: int| !occurs_at(after_last(s, p), p, k),
{
    let r = after_last(s, p);
    if exists|e: int| is_last_end(s, p, e) {
        let e = choose|e: int| is_last_end(s, p, e);
        assert(r == s.subrange(e, s.len() as int));
        assert forall|k: int| !occurs_at(r, p, k) by {
            if occurs_at(r, p, k) {
                assert(s.subrange(e + k, e + k + p.len()) =~= r.subrange(k, k + p.len()));
                assert(occurs_ending_at(s, p, e + k + p.len()));
            }
        }
    } else {
        assert(r == s);
        assert forall|k: int| !occurs_at(r, p, k) by {
            if occurs_at(r, p, k) {
                lemma_last_end_exists(s, p, k + p.len());
            }
        }
    }
    assert(r =~= s.subrange(s.len() - r.len(), s.len() as int));
}

/// Stripping leading `:` and `/` leaves a suffix that begins with neither.
pub proof fn lemma_trim_separators_shape(s: Seq<char>)
    ensures
        is_suffix_of(trim_separators(s), s),
        trim_separators(s).len() > 0 ==> trim_separators(s)[0] != ':' && trim_separators(s)[0]
            != '/',
    decreases s.len(),
{
    if s.len() > 0 && (s[0] == ':' || s[0] == '/') {
        let t = s.subrange(1, s.len() as int);
        lemma_trim_separators_shape(t);
        let r = trim_separators(t);
        assert(r =~= s.subrange(s.len() - r.len(), s.len() as int));
    } else {
        assert(s =~= s.subrange(0, s.len() as int));
    }
}

/// The number that a string of decimal digits stands for.
pub open spec fn digits_value(s: Seq<char>) -> int
    decreases s.len(),
{
    if s.len() == 0 {
        0
    } else {
        digits_value(s.drop_last()) * 10 + (s.last() as u32 - 48)
    }
}

/// The decimal rendering of `n` is made of the digits `0`-`9`, stands for
/// `n`, and begins with `0` only when it is `0` itself.
pub proof fn lemma_decimal_reads_back(n: nat)
    ensures
        digits_value(decimal(n)) == n,
        forall|i: int|
            0 <= i < decimal(n).len() ==> '0' <= #[trigger] decimal(n)[i] && decimal(n)[i] <= '9',
        decimal(n).len() >= 1,
        decimal(n)[0] == '0' ==> n == 0,
    decreases n,
{
    if n >= 10 {
        lemma_decimal_reads_back(n / 10);
        let d = decimal(n);
        assert(d.drop_last() =~= decimal(n / 10));
        assert(d[0] == decimal(n / 10)[0]);
        assert(d.last() == digit_char(n % 10));
        assert(digit_char(n % 10) as u32 == n % 10 + 48);
        assert(digits_value(d) == digits_value(decimal(n / 10)) * 10 + (n % 10));
        assert((n / 10) * 10 + n % 10 == n) by (nonlinear_arith);
    } else {
        assert(decimal(n) == seq![digit_char(n)]);
        assert(digit_char(n) as u32 == n + 48);
        assert(seq![digit_char(n)].drop_last() =~= Seq::<char>::empty());
        assert(digits_value(Seq::<char>::empty()) == 0);
        assert(digits_value(seq![digit_char(n)]) == n);
    }
}

} // verus!
