//! The `OWNER/NAME` slug of a GitHub repo URL.
use vstd::prelude::*;

use crate::text::{
    is_suffix_of, lemma_after_last_shape, lemma_strip_suffix_repeated_shape,
    lemma_suffix_of_suffix, lemma_trim_separators_shape, after_last, after_last_occurrence, chars_of, count_segments, is_last_end,
    lemma_segments_of_pair, occurs_at, occurs_ending_at, segment_count, string_of,
    strip_suffix_repeated, strip_suffixes, trim_end_ws, trim_leading_separators, trim_separators,
    trim_start_ws, trim_whitespace, trim_ws,
};

verus! {

/// The characters of `.git`.
pub open spec fn git_suffix() -> Seq<char> {
    seq!['.', 'g', 'i', 't']
}

/// The characters of `github.com`.
pub open spec fn github_host() -> Seq<char> {
    seq!['g', 'i', 't', 'h', 'u', 'b', '.', 'c', 'o', 'm']
}

/// The `OWNER/NAME` candidate cut out of a repo URL: trimmed, stripped of
/// trailing `.git`s, cut after the last `github.com`, and stripped of the
/// leading `:` and `/` characters.
pub open spec fn slug_candidate(url: Seq<char>) -> Seq<char> {
    trim_separators(after_last(strip_suffix_repeated(trim_ws(url), git_suffix()), github_host()))
}

/// The `OWNER/NAME` slug of a repo URL: the candidate, when it splits at
/// `/` into exactly two non-empty pieces.
pub open spec fn slug_of(url: Seq<char>) -> Option<Seq<char>> {
    let c = slug_candidate(url);
    if segment_count(c) == 2 {
        Some(c)
    } else {
        None
    }
}

fn git_suffix_chars() -> (v: Vec<char>)
    ensures
        v@ == git_suffix(),
{
    let mut v: Vec<char> = Vec::new();
    v.push('.');
    v.push('g');
    v.push('i');
    v.push('t');
    assert(v@ =~= git_suffix());
    v
}

fn github_host_chars() -> (v: Vec<char>)
    ensures
        v@ == github_host(),
{
    let mut v: Vec<char> = Vec::new();
    v.push('g');
    v.push('i');
    v.push('t');
    v.push('h');
    v.push('u');
    v.push('b');
    v.push('.');
    v.push('c');
    v.push('o');
    v.push('m');
    assert(v@ =~= github_host());
    v
}

/// `git@github.com:OWNER/NAME.git` or `https://github.com/OWNER/NAME.git` -> `OWNER/NAME`
pub fn repo_slug(url: &str) -> (res: Option<String>)
    ensures
        match res {
            Some(s) => slug_of(url@) == Some(s@),
            None => slug_of(url@) is None,
        },
{
    let v = chars_of(url);
    let t = trim_whitespace(&v);
    let t = strip_suffixes(&t, &git_suffix_chars());
    let t = after_last_occurrence(&t, &github_host_chars());
    let t = trim_leading_separators(&t);
    if count_segments(&t) == 2 {
        Some(string_of(&t))
    } else {
        None
    }
}

/// The start of a GitHub repo URL: `git@github.com:` over ssh, `https://github.com/` otherwise.
pub open spec fn github_prefix(ssh: bool) -> Seq<char> {
    if ssh {
        seq!['g', 'i', 't', '@', 'g', 'i', 't', 'h', 'u', 'b', '.', 'c', 'o', 'm', ':']
    } else {
        seq!['h', 't', 't', 'p', 's', ':', '/', '/', 'g', 'i', 't', 'h', 'u', 'b', '.', 'c', 'o', 'm', '/']
    }
}

/// `git@github.com:OWNER/NAME.git` (ssh) or `https://github.com/OWNER/NAME.git`.
pub open spec fn github_url(ssh: bool, owner: Seq<char>, name: Seq<char>) -> Seq<char> {
    github_prefix(ssh) + owner + seq!['/'] + name + git_suffix()
}

/// A repo path component that a GitHub URL can carry unchanged: non-empty,
/// without `/`, and without `github.com` in it.
pub open spec fn plain_component(c: Seq<char>) -> bool {
    &&& c.len() > 0
    &&& forall|i: int| 0 <= i < c.len() ==> c[i] != '/'
    &&& forall|i: int| !occurs_at(c, github_host(), i)
}

/// The URL without its `.git`: `<prefix>OWNER/NAME`.
pub open spec fn github_path(ssh: bool, owner: Seq<char>, name: Seq<char>) -> Seq<char> {
    github_prefix(ssh) + owner + seq!['/'] + name
}

proof fn lemma_url_needs_no_trim(ssh: bool, owner: Seq<char>, name: Seq<char>)
    ensures
        trim_ws(github_url(ssh, owner, name)) == github_url(ssh, owner, name),
{
    let u = github_url(ssh, owner, name);
    assert(u[0] == github_prefix(ssh)[0]);
    assert(trim_start_ws(u) == u);
    assert(u.last() == 't');
    assert(trim_end_ws(u) == u);
}

proof fn lemma_url_strips_one_git(ssh: bool, owner: Seq<char>, name: Seq<char>)
    requires
        plain_component(owner),
        plain_component(name),
        !occurs_at(name, git_suffix(), name.len() - 4),
    ensures
        strip_suffix_repeated(github_url(ssh, owner, name), git_suffix()) == github_path(
            ssh,
            owner,
            name,
        ),
{
    let u = github_url(ssh, owner, name);
    let pt = github_path(ssh, owner, name);
    let g = git_suffix();
    let lp = github_prefix(ssh).len() as int;
    let lo = owner.len() as int;
    let l = pt.len() as int;
    assert(u =~= pt + g);
    assert(u.subrange(u.len() - 4, u.len() as int) =~= g);
    assert(u.subrange(0, u.len() - 4) =~= pt);
    if occurs_at(pt, g, l - 4) {
        if name.len() >= 4 {
            assert(name.subrange(name.len() - 4, name.len() as int) =~= pt.subrange(l - 4, l));
        } else {
            let k = lp + lo - (l - 4);
            assert(pt.subrange(l - 4, l)[k] == pt[lp + lo]);
        }
    }
    assert(strip_suffix_repeated(pt, g) == pt);
}

proof fn lemma_last_host_is_in_prefix(ssh: bool, owner: Seq<char>, name: Seq<char>)
    requires
        plain_component(owner),
        plain_component(name),
    ensures
        after_last(github_path(ssh, owner, name), github_host()) == seq![
            if ssh {
                ':'
            } else {
                '/'
            },
        ] + owner + seq!['/'] + name,
{
    let pre = github_prefix(ssh);
    let pt = github_path(ssh, owner, name);
    let h = github_host();
    let lp = pre.len() as int;
    let lo = owner.len() as int;
    let e0 = lp - 1;
    assert(pt.subrange(e0 - 10, e0) =~= h);
    assert forall|f: int| e0 < f <= pt.len() implies !occurs_ending_at(pt, h, f) by {
        let st = f - 10;
        if occurs_ending_at(pt, h, f) {
            assert(pt.subrange(st, f)[0] == h[0]);
            if st < lp {
                assert(pt[st] == pre[st]);
            } else if st + 10 <= lp + lo {
                assert(owner.subrange(st - lp, st - lp + 10) =~= pt.subrange(st, f));
                assert(occurs_at(owner, h, st - lp));
            } else if st > lp + lo {
                assert(name.subrange(st - lp - lo - 1, st - lp - lo + 9) =~= pt.subrange(st, f));
                assert(occurs_at(name, h, st - lp - lo - 1));
            } else {
                assert(pt.subrange(st, f)[lp + lo - st] == '/');
            }
        }
    }
    assert(is_last_end(pt, h, e0));
    assert forall|e: int| is_last_end(pt, h, e) implies e == e0 by {
        if e < e0 {
            assert(!occurs_ending_at(pt, h, e0));
        } else if e > e0 {
            assert(!occurs_ending_at(pt, h, e));
        }
    }
    assert(pt.subrange(e0, pt.len() as int) =~= seq![
        if ssh {
            ':'
        } else {
            '/'
        },
    ] + owner + seq!['/'] + name);
}

/// Either form of a GitHub repo URL, ssh (`git@github.com:OWNER/NAME.git`)
/// or https (`https://github.com/OWNER/NAME.git`), has the slug `OWNER/NAME`,
/// for every owner and name that are non-empty and hold neither `/` nor
/// `github.com`, where the owner does not begin with `:` and the name does
/// not itself end in `.git`.
pub proof fn lemma_slug_of_github_url(ssh: bool, owner: Seq<char>, name: Seq<char>)
    requires
        plain_component(owner),
        plain_component(name),
        owner[0] != ':',
        !occurs_at(name, git_suffix(), name.len() - 4),
    ensures
        slug_of(github_url(ssh, owner, name)) == Some(owner + seq!['/'] + name),
{
    let t = owner + seq!['/'] + name;
    lemma_url_needs_no_trim(ssh, owner, name);
    lemma_url_strips_one_git(ssh, owner, name);
    lemma_last_host_is_in_prefix(ssh, owner, name);
    let rest = seq![
        if ssh {
            ':'
        } else {
            '/'
        },
    ] + t;
    assert(rest =~= seq![if ssh { ':' } else { '/' }] + owner + seq!['/'] + name);
    assert(rest.subrange(1, rest.len() as int) =~= t);
    assert(t[0] == owner[0]);
    assert(trim_separators(t) == t);
    assert(trim_separators(rest) == t);
    lemma_segments_of_pair(owner, name);
}

/// Every slug has the shape `OWNER/NAME` is cut to: it begins with neither
/// `:` nor `/`, holds no `github.com`, and does not end in `.git`.
pub proof fn lemma_slug_shape(url: Seq<char>)
    requires
        slug_of(url) is Some,
    ensures
        ({
            let s = slug_of(url)->0;
            &&& s.len() > 0
            &&& s[0] != ':' && s[0] != '/'
            &&& forall|k: int| !occurs_at(s, github_host(), k)
            &&& !occurs_at(s, git_suffix(), s.len() - 4)
        }),
{
    let t2 = strip_suffix_repeated(trim_ws(url), git_suffix());
    let t3 = after_last(t2, github_host());
    let s = trim_separators(t3);
    lemma_strip_suffix_repeated_shape(trim_ws(url), git_suffix());
    lemma_after_last_shape(t2, github_host());
    lemma_trim_separators_shape(t3);
    lemma_suffix_of_suffix(s, t3, t2);
    assert(s.len() > 0) by {
        if s.len() == 0 {
            assert(segment_count(s) == 0);
        }
    }
    assert forall|k: int| !occurs_at(s, github_host(), k) by {
        let off = t3.len() - s.len();
        if occurs_at(s, github_host(), k) {
            assert(t3.subrange(off + k, off + k + 10) =~= s.subrange(k, k + 10));
            assert(occurs_at(t3, github_host(), off + k));
        }
    }
    if occurs_at(s, git_suffix(), s.len() - 4) {
        assert(t2.subrange(t2.len() - 4, t2.len() as int) =~= s.subrange(
            s.len() - 4,
            s.len() as int,
        ));
    }
}

/// Slicing a slug again gives it back, as long as it has no white space at
/// either end to trim.
pub proof fn lemma_slug_is_idempotent(url: Seq<char>)
    requires
        slug_of(url) is Some,
        trim_ws(slug_of(url)->0) == slug_of(url)->0,
    ensures
        slug_of(slug_of(url)->0) == slug_of(url),
{
    let s = slug_of(url)->0;
    lemma_slug_shape(url);
    assert(strip_suffix_repeated(s, git_suffix()) == s);
    assert(after_last(s, github_host()) == s) by {
        assert forall|e: int| !is_last_end(s, github_host(), e) by {
            if is_last_end(s, github_host(), e) {
                assert(occurs_at(s, github_host(), e - 10));
            }
        }
    }
    assert(trim_separators(s) == s);
}

} // verus!
