//! Relative paths: their components, their canonical form and the storage key
//! that a canonical path stands for.
use vstd::prelude::*;
use crate::address::{Address, spec_parse_address};
use crate::wasi::ErrNo;
use vstd::utf8::encode_utf8;
use vstd::slice::slice_to_vec;

verus! {

/// The chars of a string.
pub fn str_chars(s: &str) -> (v: Vec<char>)
    ensures
        v@ == s@,
{
    let mut v: Vec<char> = Vec::new();
    for c in it: s.chars()
        invariant
            v@ == it.seq().take(it.index() as int),
            it.seq() == s@,
    {
        v.push(c);
    }
    v
}

/// Copies a sequence of chars.
pub fn copy_chars(s: &Vec<char>) -> (v: Vec<char>)
    ensures
        v@ == s@,
{
    let mut v: Vec<char> = Vec::new();
    let mut i: usize = 0;
    while i < s.len()
        invariant
            0 <= i <= s@.len(),
            v@ == s@.take(i as int),
        decreases s@.len() - i,
    {
        v.push(s[i]);
        i = i + 1;
        assert(v@ =~= s@.take(i as int));
    }
    v
}

/// The views of a sequence of char vectors.
pub open spec fn views(v: Seq<Vec<char>>) -> Seq<Seq<char>> {
    v.map_values(|c: Vec<char>| c@)
}

/// Whether a segment between separators names something: it is neither empty nor `.`.
pub open spec fn is_component(seg: Seq<char>) -> bool {
    seg.len() > 0 && seg != seq!['.']
}

/// The segment `..`, which names the parent directory.
pub open spec fn is_parent(seg: Seq<char>) -> bool {
    seg == seq!['.', '.']
}

pub open spec fn push_component(done: Seq<Seq<char>>, seg: Seq<char>) -> Seq<Seq<char>> {
    if is_component(seg) {
        done.push(seg)
    } else {
        done
    }
}

/// Scans a path from the left: the components finished so far and the segment in progress.
pub open spec fn split_state(p: Seq<char>) -> (Seq<Seq<char>>, Seq<char>)
    decreases p.len(),
{
    if p.len() == 0 {
        (seq![], seq![])
    } else {
        let (done, cur) = split_state(p.drop_last());
        if p.last() == '/' {
            (push_component(done, cur), seq![])
        } else {
            (done, cur.push(p.last()))
        }
    }
}

/// The components of a path: the segments between `/` separators, leaving out
/// empty segments and `.` (as `std::path::Path::components` does for a relative path).
pub open spec fn spec_components(p: Seq<char>) -> Seq<Seq<char>> {
    let (done, cur) = split_state(p);
    push_component(done, cur)
}

fn is_component_exec(seg: &Vec<char>) -> (r: bool)
    ensures
        r == is_component(seg@),
{
    if seg.len() == 0 {
        false
    } else if seg.len() == 1 && seg[0] == '.' {
        assert(seg@ =~= seq!['.']);
        false
    } else {
        assert(seg@ != seq!['.']) by {
            if seg@.len() == 1 {
                assert(seg@[0] != '.');
            }
        }
        true
    }
}

fn is_parent_exec(seg: &Vec<char>) -> (r: bool)
    ensures
        r == is_parent(seg@),
{
    if seg.len() == 2 && seg[0] == '.' && seg[1] == '.' {
        assert(seg@ =~= seq!['.', '.']);
        true
    } else {
        assert(seg@ != seq!['.', '.']) by {
            if seg@.len() == 2 {
                assert(seg@[0] != '.' || seg@[1] != '.');
            }
        }
        false
    }
}

/// Splits a path into its components.
pub fn components(path: &[char]) -> (r: Vec<Vec<char>>)
    ensures
        views(r@) == spec_components(path@),
{
    let mut done: Vec<Vec<char>> = Vec::new();
    let mut cur: Vec<char> = Vec::new();
    let mut i: usize = 0;
    while i < path.len()
        invariant
            0 <= i <= path@.len(),
            (views(done@), cur@) == split_state(path@.take(i as int)),
        decreases path@.len() - i,
    {
        let c = path[i];
        assert(path@.take(i + 1).drop_last() =~= path@.take(i as int));
        if c == '/' {
            if is_component_exec(&cur) {
                let ghost before = done@;
                let seg = cur;
                done.push(seg);
                assert(views(done@) =~= views(before).push(seg@));
            }
            cur = Vec::new();
        } else {
            cur.push(c);
        }
        i = i + 1;
    }
    assert(path@.take(path@.len() as int) =~= path@);
    if is_component_exec(&cur) {
        let ghost before = done@;
        let ghost last = cur@;
        done.push(cur);
        assert(views(done@) =~= views(before).push(last));
    }
    done
}

/// Resolves `..` against the components seen before it, from the left.
/// Yields the canonical components and whether any named component was met,
/// or `None` when a `..` would climb above the start.
pub open spec fn spec_fold(comps: Seq<Seq<char>>) -> Option<(Seq<Seq<char>>, bool)>
    decreases comps.len(),
{
    if comps.len() == 0 {
        Some((seq![], false))
    } else {
        match spec_fold(comps.drop_last()) {
            None => None,
            Some((canon, named)) => {
                if is_parent(comps.last()) {
                    if canon.len() == 0 {
                        None
                    } else {
                        Some((canon.drop_last(), named))
                    }
                } else {
                    Some((canon.push(comps.last()), true))
                }
            },
        }
    }
}

/// Once a prefix climbs above the start, so does every longer prefix.
proof fn lemma_fold_none_extends(comps: Seq<Seq<char>>, n: int, k: int)
    requires
        0 <= n <= k <= comps.len(),
        spec_fold(comps.take(n)) is None,
    ensures
        spec_fold(comps.take(k)) is None,
    decreases k - n,
{
    if k > n {
        lemma_fold_none_extends(comps, n, k - 1);
        assert(comps.take(k).drop_last() =~= comps.take(k - 1));
    }
}

/// Resolves the components from index `start` on.
pub fn fold_components(comps: &Vec<Vec<char>>, start: usize) -> (r: Option<(Vec<Vec<char>>, bool)>)
    requires
        start <= comps@.len(),
    ensures
        match r {
            None => spec_fold(views(comps@).skip(start as int)) is None,
            Some((canon, named)) => spec_fold(views(comps@).skip(start as int)) == Some(
                (views(canon@), named),
            ),
        },
{
    let ghost rest = views(comps@).skip(start as int);
    let mut canon: Vec<Vec<char>> = Vec::new();
    let mut named = false;
    let mut j: usize = start;
    while j < comps.len()
        invariant
            start <= j <= comps@.len(),
            rest == views(comps@).skip(start as int),
            spec_fold(rest.take(j - start)) == Some((views(canon@), named)),
        decreases comps@.len() - j,
    {
        assert(rest.take(j + 1 - start).drop_last() =~= rest.take(j - start));
        assert(rest.take(j + 1 - start).last() == comps@[j as int]@);
        if is_parent_exec(&comps[j]) {
            if canon.len() == 0 {
                proof {
                    lemma_fold_none_extends(rest, j + 1 - start, rest.len() as int);
                    assert(rest.take(rest.len() as int) =~= rest);
                }
                return None;
            }
            let ghost before = canon@;
            canon.pop();
            assert(views(canon@) =~= views(before).drop_last());
        } else {
            let ghost before = canon@;
            let c = copy_chars(&comps[j]);
            canon.push(c);
            named = true;
            assert(views(canon@) =~= views(before).push(comps@[j as int]@));
        }
        j = j + 1;
    }
    assert(rest.take(j - start) =~= rest);
    Some((canon, named))
}

/// The text of a canonical path: its components joined by `/`.
pub open spec fn join_path(comps: Seq<Seq<char>>) -> Seq<char>
    decreases comps.len(),
{
    if comps.len() == 0 {
        seq![]
    } else if comps.len() == 1 {
        comps[0]
    } else {
        join_path(comps.drop_last()) + seq!['/'] + comps.last()
    }
}

/// The storage key of a canonical path: the UTF-8 bytes of its text.
pub open spec fn spec_key_for_path(comps: Seq<Seq<char>>) -> Seq<u8> {
    encode_utf8(join_path(comps))
}

/// Joins canonical components with `/`.
pub fn join_components(comps: &Vec<Vec<char>>) -> (r: Vec<char>)
    ensures
        r@ == join_path(views(comps@)),
{
    let mut out: Vec<char> = Vec::new();
    let mut i: usize = 0;
    while i < comps.len()
        invariant
            0 <= i <= comps@.len(),
            out@ == join_path(views(comps@).take(i as int)),
        decreases comps@.len() - i,
    {
        let ghost prev = out@;
        if i > 0 {
            out.push('/');
        }
        let mut k: usize = 0;
        let ghost base = out@;
        while k < comps[i].len()
            invariant
                0 <= i < comps@.len(),
                0 <= k <= comps@[i as int]@.len(),
                out@ == base + comps@[i as int]@.take(k as int),
            decreases comps@[i as int]@.len() - k,
        {
            out.push(comps[i][k]);
            k = k + 1;
            assert(out@ =~= base + comps@[i as int]@.take(k as int));
        }
        assert(comps@[i as int]@.take(k as int) =~= comps@[i as int]@);
        let ghost t = views(comps@).take(i + 1);
        assert(t.drop_last() =~= views(comps@).take(i as int));
        assert(t.last() == comps@[i as int]@);
        if i == 0 {
            assert(out@ =~= t[0]);
        } else {
            assert(out@ =~= prev + seq!['/'] + comps@[i as int]@);
        }
        i = i + 1;
    }
    assert(views(comps@).take(i as int) =~= views(comps@));
    out
}

/// Collects chars into a `String` (`<String as FromIterator<char>>::from_iter`); the
/// contract claims that the string holds exactly those chars, in order.
#[verifier::external_body]
pub(crate) fn string_from_chars(cs: &[char]) -> (s: String)
    ensures
        s@ == cs@,
{
    cs.iter().collect()
}

/// The storage key of a canonical path.
pub fn key_for_path(comps: &Vec<Vec<char>>) -> (key: Vec<u8>)
    ensures
        key@ == spec_key_for_path(views(comps@)),
{
    let text = join_components(comps);
    let s = string_from_chars(text.as_slice());
    slice_to_vec(s.as_str().as_bytes())
}

} // verus!
