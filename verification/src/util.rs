//! Helpers of the pipeline: checksums, finding the packed zip, retry timing,
//! and how commands are echoed.
use vstd::prelude::*;
use vstd::string::*;

use crate::text::{chars_of, hex_lower, push_char, to_hex_lower, views};

verus! {

/// The SHA-256 digest of `data`.
pub uninterp spec fn sha256(data: Seq<u8>) -> Seq<u8>;

/// `sha2::Sha256::digest(data)`, as a vector. Trusted to be the SHA-256 of
/// `data` and to be 32 bytes long (the hash's fixed output size).
#[verifier::external_body]
fn sha256_digest(data: &[u8]) -> (res: Vec<u8>)
    ensures
        res@ == sha256(data@),
        res@.len() == 32,
{
    <sha2::Sha256 as sha2::Digest>::digest(data).to_vec()
}

/// The SHA-256 of `data`, in lowercase hex: 64 characters.
pub fn sha256_hex(data: &[u8]) -> (res: String)
    ensures
        res@ == hex_lower(sha256(data@)),
        res@.len() == 64,
{
    let d = sha256_digest(data);
    let s = to_hex_lower(d.as_slice());
    proof {
        lemma_hex_len(d@);
    }
    s
}

/// Hex rendering takes two characters per byte.
pub proof fn lemma_hex_len(b: Seq<u8>)
    ensures
        hex_lower(b).len() == 2 * b.len(),
    decreases b.len(),
{
    if b.len() > 0 {
        lemma_hex_len(b.drop_last());
    }
}

/// The characters of `.zip`.
pub open spec fn zip_suffix() -> Seq<char> {
    seq!['.', 'z', 'i', 'p']
}

/// Whether a file name has the extension `zip`: it ends in `.zip` after at
/// least one other character (`.zip` alone is a hidden file without extension).
pub open spec fn is_zip_name(name: Seq<char>) -> bool {
    name.len() >= 5 && name.subrange(name.len() - 4, name.len() as int) == zip_suffix()
}

/// Whether a file name has the extension `zip`.
pub fn has_zip_extension(name: &str) -> (res: bool)
    ensures
        res == is_zip_name(name@),
        res <==> exists|stem: Seq<char>|
            stem.len() >= 1 && name@ == stem + seq!['.', 'z', 'i', 'p'],
{
    proof {
        lemma_zip_name_is_stem_dot_zip(name@);
    }
    let v = chars_of(name);
    let n = v.len();
    if n < 5 {
        return false;
    }
    let r = v[n - 4] == '.' && v[n - 3] == 'z' && v[n - 2] == 'i' && v[n - 1] == 'p';
    assert(r == (v@.subrange(n - 4, n as int) =~= zip_suffix()));
    r
}

/// A name has the extension `zip` exactly when it is some non-empty stem,
/// of any length, followed by `.zip`.
pub proof fn lemma_zip_name_is_stem_dot_zip(name: Seq<char>)
    ensures
        is_zip_name(name) <==> exists|stem: Seq<char>|
            stem.len() >= 1 && name == stem + seq!['.', 'z', 'i', 'p'],
{
    let z = seq!['.', 'z', 'i', 'p'];
    if is_zip_name(name) {
        let stem = name.subrange(0, name.len() - 4);
        assert(name =~= stem + z);
    }
    if exists|stem: Seq<char>| stem.len() >= 1 && name == stem + z {
        let stem = choose|stem: Seq<char>| stem.len() >= 1 && name == stem + z;
        assert(name.subrange(name.len() - 4, name.len() as int) =~= z);
    }
}

/// Every non-empty stem followed by `.zip` names a zip, however long it is.
pub proof fn lemma_stem_dot_zip_is_zip(stem: Seq<char>)
    requires
        stem.len() >= 1,
    ensures
        is_zip_name(stem + seq!['.', 'z', 'i', 'p']),
{
    lemma_zip_name_is_stem_dot_zip(stem + seq!['.', 'z', 'i', 'p']);
}

/// The names, in order, that have the extension `zip`.
pub open spec fn zip_names_of(names: Seq<Seq<char>>) -> Seq<Seq<char>> {
    names.filter(|n: Seq<char>| is_zip_name(n))
}

/// The entries of a directory listing whose names have the extension `zip`, in listing order.
pub fn zip_names(names: &Vec<String>) -> (res: Vec<String>)
    ensures
        views(res@) == zip_names_of(views(names@)),
{
    let mut res: Vec<String> = Vec::new();
    let n = names.len();
    let mut i: usize = 0;
    while i < n
        invariant
            n == names@.len(),
            i <= n,
            views(res@) == zip_names_of(views(names@.subrange(0, i as int))),
        decreases n - i,
    {
        let ghost pre = views(names@.subrange(0, i as int));
        let ghost next = views(names@.subrange(0, i + 1));
        assert(next =~= pre.push(names@[i as int]@));
        assert(next.drop_last() =~= pre);
        reveal(Seq::filter);
        if has_zip_extension(names[i].as_str()) {
            res.push(names[i].clone());
            assert(views(res@) =~= views(res@.drop_last()).push(names@[i as int]@));
        }
        i = i + 1;
    }
    assert(names@.subrange(0, n as int) =~= names@);
    res
}

/// The positions, in increasing order, of the names in a directory listing
/// that have the extension `zip`: every such position and no other.
pub fn zip_positions(names: &Vec<String>) -> (res: Vec<usize>)
    ensures
        forall|k: int, l: int| 0 <= k < l < res@.len() ==> res@[k] < res@[l],
        forall|k: int|
            0 <= k < res@.len() ==> res@[k] < names@.len() && is_zip_name(names@[res@[k] as int]@),
        forall|i: int|
            0 <= i < names@.len() && is_zip_name(names@[i]@) ==> res@.contains(i as usize),
{
    let mut res: Vec<usize> = Vec::new();
    let n = names.len();
    let mut i: usize = 0;
    while i < n
        invariant
            n == names@.len(),
            i <= n,
            forall|k: int, l: int| 0 <= k < l < res@.len() ==> res@[k] < res@[l],
            forall|k: int|
                0 <= k < res@.len() ==> res@[k] < i && is_zip_name(names@[res@[k] as int]@),
            forall|j: int| 0 <= j < i && is_zip_name(names@[j]@) ==> res@.contains(j as usize),
        decreases n - i,
    {
        if has_zip_extension(names[i].as_str()) {
            let ghost before = res@;
            res.push(i);
            assert forall|j: int| 0 <= j < i + 1 && is_zip_name(names@[j]@) implies res@.contains(
                j as usize,
            ) by {
                if j < i {
                    let k = choose|k: int| 0 <= k < before.len() && before[k] == j as usize;
                    assert(res@[k] == j as usize);
                } else {
                    assert(res@[res@.len() - 1] == i);
                }
            }
        }
        i = i + 1;
    }
    res
}

/// `after[i]` is the first entry of `after` that `before` does not hold.
pub open spec fn is_first_new(before: Seq<String>, after: Seq<String>, i: int) -> bool {
    &&& 0 <= i < after.len()
    &&& !views(before).contains(after[i]@)
    &&& forall|j: int| 0 <= j < i ==> views(before).contains(after[j]@)
}

/// `before` holds every entry of `after`.
pub open spec fn nothing_new(before: Seq<String>, after: Seq<String>) -> bool {
    forall|j: int| 0 <= j < after.len() ==> views(before).contains(after[j]@)
}

/// The first zip of `after` that is not in `before`: the one a build just made.
pub fn pick_new_zip(before: &Vec<String>, after: &Vec<String>) -> (res: Option<String>)
    ensures
        match res {
            Some(z) => exists|i: int| is_first_new(before@, after@, i) && z@ == after@[i]@,
            None => nothing_new(before@, after@),
        },
{
    let n = after.len();
    let mut i: usize = 0;
    while i < n
        invariant
            n == after@.len(),
            i <= n,
            forall|j: int| 0 <= j < i ==> views(before@).contains(after@[j]@),
        decreases n - i,
    {
        let m = before.len();
        let mut k: usize = 0;
        let mut found = false;
        while k < m
            invariant
                n == after@.len(),
                i < n,
                m == before@.len(),
                k <= m,
                found ==> views(before@).contains(after@[i as int]@),
                !found ==> forall|j: int| 0 <= j < k ==> before@[j]@ != after@[i as int]@,
            decreases m - k,
        {
            if before[k] == after[i] {
                assert(views(before@)[k as int] == after@[i as int]@);
                found = true;
            }
            k = k + 1;
        }
        if !found {
            assert(!views(before@).contains(after@[i as int]@));
            assert(is_first_new(before@, after@, i as int));
            return Some(after[i].clone());
        }
        i = i + 1;
    }
    None
}

/// The zip a build produced: the first zip listed after the build that was
/// not listed before it, else the newest zip there (`newest`, if any). `None`
/// means no zip was found.
pub fn choose_artifact(before: &Vec<String>, after: &Vec<String>, newest: Option<String>) -> (res:
    Option<String>)
    ensures
        nothing_new(before@, after@) ==> res == newest,
        !nothing_new(before@, after@) ==> exists|i: int|
            is_first_new(before@, after@, i) && (res matches Some(z) && z@ == after@[i]@),
{
    match pick_new_zip(before, after) {
        Some(z) => Some(z),
        None => newest,
    }
}

/// The position of the newest file, given each file's modification time:
/// the last of those with the latest time (as `Iterator::max_by_key` picks).
pub fn newest_index(mtimes: &Vec<i128>) -> (res: Option<usize>)
    ensures
        match res {
            Some(i) => {
                &&& i < mtimes@.len()
                &&& forall|j: int| 0 <= j < i ==> mtimes@[j] <= mtimes@[i as int]
                &&& forall|j: int| i < j < mtimes@.len() ==> mtimes@[j] < mtimes@[i as int]
            },
            None => mtimes@.len() == 0,
        },
{
    let n = mtimes.len();
    if n == 0 {
        return None;
    }
    let mut best: usize = 0;
    let mut i: usize = 1;
    while i < n
        invariant
            n == mtimes@.len(),
            best < i <= n,
            forall|j: int| 0 <= j < i ==> mtimes@[j] <= mtimes@[best as int],
            forall|j: int| best < j < i ==> mtimes@[j] < mtimes@[best as int],
        decreases n - i,
    {
        if mtimes[i] >= mtimes[best] {
            best = i;
        }
        i = i + 1;
    }
    Some(best)
}

/// Words joined by single spaces.
pub open spec fn spaced(words: Seq<Seq<char>>) -> Seq<char>
    decreases words.len(),
{
    if words.len() == 0 {
        Seq::empty()
    } else if words.len() == 1 {
        words[0]
    } else {
        spaced(words.drop_last()) + seq![' '] + words.last()
    }
}

/// The arguments of a command joined by single spaces, as it is echoed.
pub fn join_words(words: &Vec<String>) -> (res: String)
    ensures
        res@ == spaced(views(words@)),
{
    let mut s = String::new();
    let n = words.len();
    let mut i: usize = 0;
    while i < n
        invariant
            n == words@.len(),
            i <= n,
            s@ == spaced(views(words@.subrange(0, i as int))),
        decreases n - i,
    {
        let ghost next = views(words@.subrange(0, i + 1));
        assert(next.drop_last() =~= views(words@.subrange(0, i as int)));
        if i > 0 {
            push_char(&mut s, ' ');
        }
        s.append(words[i].as_str());
        i = i + 1;
    }
    assert(words@.subrange(0, n as int) =~= words@);
    s
}

/// The longest pause between attempts, in seconds.
pub const MAX_DELAY_SECS: u64 = 60;

/// The pause after the `n`-th failed attempt: `base_secs * 2^(n-1)` seconds,
/// capped at 60.
pub open spec fn retry_delay_secs(base_secs: u64, n: u32) -> int {
    let d = base_secs * vstd::arithmetic::power2::pow2((n - 1) as nat);
    if d < 60 {
        d
    } else {
        60
    }
}

/// How long to wait after the `n`-th failed attempt (`n` counts from 1).
pub fn retry_delay(base_secs: u64, n: u32) -> (res: u64)
    requires
        n >= 1,
    ensures
        res == retry_delay_secs(base_secs, n),
{
    let shift: u32 = if n - 1 < 6 {
        n - 1
    } else {
        6
    };
    let factor: u64 = 1u64 << shift;
    proof {
        lemma_shift_is_pow2(shift);
        lemma_delay_saturates(base_secs, n, shift);
    }
    let product = match base_secs.checked_mul(factor) {
        Some(p) => p,
        None => u64::MAX,
    };
    if product < MAX_DELAY_SECS {
        product
    } else {
        MAX_DELAY_SECS
    }
}

proof fn lemma_shift_is_pow2(shift: u32)
    requires
        shift <= 6,
    ensures
        (1u64 << shift) == vstd::arithmetic::power2::pow2(shift as nat),
{
    vstd::arithmetic::power2::lemma2_to64();
    assert((1u64 << 0u32) == 1u64) by (bit_vector);
    assert((1u64 << 1u32) == 2u64) by (bit_vector);
    assert((1u64 << 2u32) == 4u64) by (bit_vector);
    assert((1u64 << 3u32) == 8u64) by (bit_vector);
    assert((1u64 << 4u32) == 16u64) by (bit_vector);
    assert((1u64 << 5u32) == 32u64) by (bit_vector);
    assert((1u64 << 6u32) == 64u64) by (bit_vector);
}

/// Capping the exponent at 6 changes no capped delay: past that, any
/// non-zero base already gives at least 64 seconds.
proof fn lemma_delay_saturates(base_secs: u64, n: u32, shift: u32)
    requires
        n >= 1,
        shift == if n - 1 < 6 {
            n - 1
        } else {
            6
        },
    ensures
        retry_delay_secs(base_secs, n) == {
            let d = base_secs * vstd::arithmetic::power2::pow2(shift as nat);
            if d < 60 {
                d
            } else {
                60
            }
        },
{
    let p = vstd::arithmetic::power2::pow2((n - 1) as nat);
    let q = vstd::arithmetic::power2::pow2(shift as nat);
    if shift == n - 1 {
        assert(p == q);
    } else {
        vstd::arithmetic::power2::lemma_pow2_strictly_increases(shift as nat, (n - 1) as nat);
        vstd::arithmetic::power2::lemma2_to64();
        assert(q == 64);
        if base_secs > 0 {
            assert(base_secs * p >= p) by (nonlinear_arith)
                requires
                    base_secs >= 1,
                    p >= 0,
            ;
            assert(base_secs * q >= 64) by (nonlinear_arith)
                requires
                    base_secs >= 1,
                    q == 64,
            ;
            assert(p > 64);
        } else {
            assert(base_secs * p == 0) by (nonlinear_arith)
                requires
                    base_secs == 0,
            ;
            assert(base_secs * q == 0) by (nonlinear_arith)
                requires
                    base_secs == 0,
            ;
        }
    }
}

/// The backoff never shrinks: a later failed attempt is followed by a pause
/// at least as long as an earlier one, and never longer than a minute.
pub proof fn lemma_retry_delay_grows(base_secs: u64, n: u32, m: u32)
    requires
        1 <= n <= m,
    ensures
        retry_delay_secs(base_secs, n) <= retry_delay_secs(base_secs, m),
        retry_delay_secs(base_secs, m) <= MAX_DELAY_SECS,
{
    let p = vstd::arithmetic::power2::pow2((n - 1) as nat);
    let q = vstd::arithmetic::power2::pow2((m - 1) as nat);
    if n < m {
        vstd::arithmetic::power2::lemma_pow2_strictly_increases((n - 1) as nat, (m - 1) as nat);
    }
    assert(base_secs * p <= base_secs * q) by (nonlinear_arith)
        requires
            p <= q,
    ;
}

/// The first pause is the base (at most a minute), and each further pause
/// doubles the one before until it reaches the one-minute cap, where it stays.
pub proof fn lemma_retry_delay_doubles(base_secs: u64, n: u32)
    requires
        1 <= n < u32::MAX,
    ensures
        retry_delay_secs(base_secs, 1) == if base_secs < 60 {
            base_secs as int
        } else {
            60
        },
        2 * retry_delay_secs(base_secs, n) < 60 ==> retry_delay_secs(base_secs, (n + 1) as u32)
            == 2 * retry_delay_secs(base_secs, n),
        2 * retry_delay_secs(base_secs, n) >= 60 ==> retry_delay_secs(base_secs, (n + 1) as u32)
            == 60,
{
    let p = vstd::arithmetic::power2::pow2((n - 1) as nat);
    vstd::arithmetic::power2::lemma_pow2_unfold(n as nat);
    vstd::arithmetic::power2::lemma2_to64();
    assert(base_secs * (2 * p) == 2 * (base_secs * p)) by (nonlinear_arith);
    assert(base_secs * 1 == base_secs);
}

/// What to do after an attempt.
#[derive(PartialEq, Eq, Structural, Debug, Clone, Copy)]
pub enum RetryAction {
    /// The attempt succeeded: return its value.
    Finish,
    /// The attempt failed: wait this many seconds, then try again.
    WaitSecs(u64),
    /// The last attempt failed: give up with its error.
    GiveUp,
}

/// The decision after attempt `n` of `attempts` (counting from 1), which
/// succeeded when `ok`.
pub fn retry_next(n: u32, attempts: u32, base_secs: u64, ok: bool) -> (res: RetryAction)
    requires
        1 <= n <= attempts,
    ensures
        res == if ok {
            RetryAction::Finish
        } else if n < attempts {
            RetryAction::WaitSecs(retry_delay_secs(base_secs, n) as u64)
        } else {
            RetryAction::GiveUp
        },
{
    if ok {
        RetryAction::Finish
    } else if n < attempts {
        RetryAction::WaitSecs(retry_delay(base_secs, n))
    } else {
        RetryAction::GiveUp
    }
}

} // verus!
