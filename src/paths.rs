//! Paths as text: joining, absolute paths, and the directory of a file.
use vstd::prelude::*;

verus! {

/// `base` joined with `rel` as `Path::join` does: an absolute `rel` replaces
/// `base`, and a `'/'` is put between the two where `base` lacks one.
pub open spec fn joined(base: Seq<char>, rel: Seq<char>) -> Seq<char> {
    if rel.len() > 0 && rel[0] == '/' {
        rel
    } else if base.len() == 0 || base.last() == '/' {
        base + rel
    } else {
        base + seq!['/'] + rel
    }
}

pub open spec fn absolute(p: Seq<char>) -> bool {
    p.len() > 0 && p[0] == '/'
}

/// The directory that holds the file at `p`: what comes before its last
/// `'/'` (`"/"` where that is the first character), or `""` without one.
pub open spec fn directory_of(p: Seq<char>) -> Seq<char> {
    let k = crate::text::last_index_of(p, '/');
    if k < 0 {
        Seq::empty()
    } else if k == 0 {
        seq!['/']
    } else {
        p.subrange(0, k)
    }
}

/// `p` names something inside the directory `dir`, not `dir` itself.
pub open spec fn strictly_inside(p: Seq<char>, dir: Seq<char>) -> bool {
    let base = if dir.len() > 0 && dir.last() == '/' {
        dir
    } else {
        dir.push('/')
    };
    &&& p.len() > base.len()
    &&& p.subrange(0, base.len() as int) == base
    &&& exists|i: int| base.len() <= i < p.len() && p[i] != '/'
}

pub fn is_absolute(p: &str) -> (r: bool)
    ensures
        r == absolute(p@),
{
    p.unicode_len() > 0 && p.get_char(0) == '/'
}

/// Joins `rel` onto `base`.
pub fn join(base: &str, rel: &str) -> (r: String)
    ensures
        r@ == joined(base@, rel@),
{
    proof {
        reveal_strlit("/");
    }
    if is_absolute(rel) {
        return rel.to_owned();
    }
    let n = base.unicode_len();
    let mut out = base.to_owned();
    if n > 0 && base.get_char(n - 1) != '/' {
        out.append("/");
    }
    out.append(rel);
    out
}

/// The directory that holds the file at `p`.
pub fn directory(p: &str) -> (r: String)
    ensures
        r@ == directory_of(p@),
{
    proof {
        reveal_strlit("/");
    }
    let n = p.unicode_len();
    let mut i = n;
    while i > 0 && p.get_char(i - 1) != '/'
        invariant
            i <= n == p@.len(),
            forall|j: int| i <= j < n ==> p@[j] != '/',
        decreases i,
    {
        i = i - 1;
    }
    proof {
        if i > 0 {
            crate::text::lemma_last_index_at(p@, '/', i - 1);
        } else {
            crate::text::lemma_last_index_none(p@, '/');
        }
    }
    if i == 0 {
        String::new()
    } else if i == 1 {
        "/".to_owned()
    } else {
        p.substring_char(0, i - 1).to_owned()
    }
}

/// Whether `p` names something inside the directory `dir`.
pub fn is_strictly_inside(p: &str, dir: &str) -> (r: bool)
    ensures
        r == strictly_inside(p@, dir@),
{
    let n = p.unicode_len();
    let m = dir.unicode_len();
    let ghost base = if dir@.len() > 0 && dir@.last() == '/' {
        dir@
    } else {
        dir@.push('/')
    };
    let b: usize = if m > 0 && dir.get_char(m - 1) == '/' {
        m
    } else {
        if m >= n {
            return false;
        }
        m + 1
    };
    if n <= b {
        return false;
    }
    let mut i: usize = 0;
    while i < m
        invariant
            i <= m < n,
            m == dir@.len(),
            n == p@.len(),
            m <= b <= m + 1,
            b < n,
            base.len() == b,
            forall|j: int| 0 <= j < i ==> p@[j] == base[j],
            forall|j: int| 0 <= j < m ==> base[j] == dir@[j],
        decreases m - i,
    {
        if p.get_char(i) != dir.get_char(i) {
            assert(p@.subrange(0, b as int)[i as int] != base[i as int]);
            return false;
        }
        i = i + 1;
    }
    if b > m {
        if p.get_char(m) != '/' {
            assert(p@.subrange(0, b as int)[m as int] != base[m as int]);
            return false;
        }
    }
    assert(p@.subrange(0, b as int) =~= base);
    let mut k = b;
    while k < n
        invariant
            b <= k <= n == p@.len(),
            base.len() == b,
            base == (if dir@.len() > 0 && dir@.last() == '/' {
                dir@
            } else {
                dir@.push('/')
            }),
            p@.subrange(0, b as int) == base,
            forall|j: int| b <= j < k ==> p@[j] == '/',
        decreases n - k,
    {
        if p.get_char(k) != '/' {
            assert(base.len() <= k < p@.len() && p@[k as int] != '/');
            return true;
        }
        k = k + 1;
    }
    false
}

} // verus!
