//! File-name classification.
//!
//! Loading decides what a picked file holds by its name alone.  The rules
//! are stated over byte strings: a scene set is `aet_*.bin`, a sprite set
//! `spr_*.bin`, a texture set ends in `_tex.bin` or `.txd`, a sprite
//! database holds `spr_db` followed by any byte and `bin`, or ends in
//! `.spi`, and an archive ends in `.farc`.

use vstd::prelude::*;

verus! {

/// Whether `s` begins with `p`.
pub open spec fn starts_with_spec(s: Seq<u8>, p: Seq<u8>) -> bool {
    p.len() <= s.len() && s.subrange(0, p.len() as int) == p
}

/// Whether `s` ends with `p`.
pub open spec fn ends_with_spec(s: Seq<u8>, p: Seq<u8>) -> bool {
    p.len() <= s.len() && s.subrange(s.len() - p.len(), s.len() as int) == p
}

/// Whether `p` occurs in `s` at position `at`, with byte value `wild`
/// standing for any single byte.
pub open spec fn matches_at_spec(s: Seq<u8>, p: Seq<u8>, wild: u8, at: int) -> bool {
    &&& 0 <= at
    &&& at + p.len() <= s.len()
    &&& forall|j: int| 0 <= j < p.len() ==> p[j] == wild || s[at + j] == p[j]
}

/// Whether `p` occurs somewhere in `s`, `wild` standing for any byte.
pub open spec fn contains_spec(s: Seq<u8>, p: Seq<u8>, wild: u8) -> bool {
    exists|at: int| matches_at_spec(s, p, wild, at)
}

fn starts_with(s: &[u8], p: &[u8]) -> (r: bool)
    ensures
        r == starts_with_spec(s@, p@),
{
    if p.len() > s.len() {
        return false;
    }
    let mut i: usize = 0;
    while i < p.len()
        invariant
            i <= p@.len(),
            p@.len() <= s@.len(),
            forall|j: int| 0 <= j < i ==> s@[j] == p@[j],
        decreases p@.len() - i,
    {
        if s[i] != p[i] {
            proof {
                assert(s@.subrange(0, p@.len() as int)[i as int] == s@[i as int]);
            }
            return false;
        }
        i = i + 1;
    }
    proof {
        assert(s@.subrange(0, p@.len() as int) =~= p@);
    }
    true
}

fn ends_with(s: &[u8], p: &[u8]) -> (r: bool)
    ensures
        r == ends_with_spec(s@, p@),
{
    let n: usize = s.len();
    let m: usize = p.len();
    if m > n {
        return false;
    }
    let base: usize = n - m;
    let mut i: usize = 0;
    while i < m
        invariant
            i <= m,
            m == p@.len(),
            n == s@.len(),
            m <= n,
            base == s@.len() - p@.len(),
            forall|j: int| 0 <= j < i ==> s@[base + j] == p@[j],
        decreases p@.len() - i,
    {
        if s[base + i] != p[i] {
            proof {
                assert(s@.subrange(s@.len() - p@.len(), s@.len() as int)[i as int] == s@[base
                    + i as int]);
            }
            return false;
        }
        i = i + 1;
    }
    proof {
        assert(s@.subrange(s@.len() - p@.len(), s@.len() as int) =~= p@);
    }
    true
}

fn contains_wild(s: &[u8], p: &[u8], wild: u8) -> (r: bool)
    ensures
        r == contains_spec(s@, p@, wild),
{
    let n: usize = s.len();
    let m: usize = p.len();
    if m > n {
        proof {
            assert(!contains_spec(s@, p@, wild)) by {
                if contains_spec(s@, p@, wild) {
                    let at = choose|at: int| matches_at_spec(s@, p@, wild, at);
                }
            }
        }
        return false;
    }
    let last: usize = n - m;
    let mut at: usize = 0;
    while at <= last
        invariant
            n == s@.len(),
            m == p@.len(),
            m <= n,
            last == s@.len() - p@.len(),
            at <= last + 1,
            forall|a: int| 0 <= a < at ==> !matches_at_spec(s@, p@, wild, a),
        decreases last + 1 - at,
    {
        let mut j: usize = 0;
        let mut hit: bool = true;
        while j < m
            invariant
                n == s@.len(),
                m == p@.len(),
                at + m <= n,
                j <= m,
                hit == (forall|k: int| 0 <= k < j ==> p@[k] == wild || s@[at + k] == p@[k]),
            decreases p@.len() - j,
        {
            if p[j] != wild && s[at + j] != p[j] {
                hit = false;
                proof {
                    assert(!(p@[j as int] == wild || s@[at + j as int] == p@[j as int]));
                }
                j = m;
            } else {
                proof {
                    assert(p@[j as int] == wild || s@[at + j as int] == p@[j as int]);
                }
                j = j + 1;
            }
        }
        if hit {
            proof {
                assert(matches_at_spec(s@, p@, wild, at as int));
            }
            return true;
        }
        at = at + 1;
    }
    proof {
        assert(!contains_spec(s@, p@, wild)) by {
            if contains_spec(s@, p@, wild) {
                let a = choose|a: int| matches_at_spec(s@, p@, wild, a);
                assert(a <= last);
            }
        }
    }
    false
}

/// Whether a file name names a scene set: `aet_` at the start, `.bin` at
/// the end, as the loader's pattern demands.
pub fn is_aet_set_name(name: &[u8]) -> (r: bool)
    ensures
        r == (starts_with_spec(name@, seq![97u8, 101u8, 116u8, 95u8]) && ends_with_spec(
            name@,
            seq![46u8, 98u8, 105u8, 110u8],
        ) && name@.len() >= 8),
{
    let pre: [u8; 4] = [97, 101, 116, 95];
    let suf: [u8; 4] = [46, 98, 105, 110];
    proof {
        assert(pre@ =~= seq![97u8, 101u8, 116u8, 95u8]);
        assert(suf@ =~= seq![46u8, 98u8, 105u8, 110u8]);
    }
    name.len() >= 8 && starts_with(name, pre.as_slice()) && ends_with(name, suf.as_slice())
}

/// Whether a file name names a sprite set: `spr_` at the start, `.bin` at
/// the end.
pub fn is_sprite_set_name(name: &[u8]) -> (r: bool)
    ensures
        r == (starts_with_spec(name@, seq![115u8, 112u8, 114u8, 95u8]) && ends_with_spec(
            name@,
            seq![46u8, 98u8, 105u8, 110u8],
        ) && name@.len() >= 8),
{
    let pre: [u8; 4] = [115, 112, 114, 95];
    let suf: [u8; 4] = [46, 98, 105, 110];
    proof {
        assert(pre@ =~= seq![115u8, 112u8, 114u8, 95u8]);
        assert(suf@ =~= seq![46u8, 98u8, 105u8, 110u8]);
    }
    name.len() >= 8 && starts_with(name, pre.as_slice()) && ends_with(name, suf.as_slice())
}

/// Whether a file name names a texture set: `_tex.bin` or `.txd` at the
/// end.
pub fn is_texture_set_name(name: &[u8]) -> (r: bool)
    ensures
        r == (ends_with_spec(name@, seq![95u8, 116u8, 101u8, 120u8, 46u8, 98u8, 105u8, 110u8])
            || ends_with_spec(name@, seq![46u8, 116u8, 120u8, 100u8])),
{
    let s1: [u8; 8] = [95, 116, 101, 120, 46, 98, 105, 110];
    let s2: [u8; 4] = [46, 116, 120, 100];
    proof {
        assert(s1@ =~= seq![95u8, 116u8, 101u8, 120u8, 46u8, 98u8, 105u8, 110u8]);
        assert(s2@ =~= seq![46u8, 116u8, 120u8, 100u8]);
    }
    ends_with(name, s1.as_slice()) || ends_with(name, s2.as_slice())
}

/// Whether a file name names a sprite database: `spr_db` then any byte
/// then `bin` anywhere in the name, or `.spi` at the end.
pub fn is_sprite_db_name(name: &[u8]) -> (r: bool)
    ensures
        r == (contains_spec(
            name@,
            seq![115u8, 112u8, 114u8, 95u8, 100u8, 98u8, 0u8, 98u8, 105u8, 110u8],
            0u8,
        ) || ends_with_spec(name@, seq![46u8, 115u8, 112u8, 105u8])),
{
    let pat: [u8; 10] = [115, 112, 114, 95, 100, 98, 0, 98, 105, 110];
    let suf: [u8; 4] = [46, 115, 112, 105];
    proof {
        assert(pat@ =~= seq![115u8, 112u8, 114u8, 95u8, 100u8, 98u8, 0u8, 98u8, 105u8, 110u8]);
        assert(suf@ =~= seq![46u8, 115u8, 112u8, 105u8]);
    }
    contains_wild(name, pat.as_slice(), 0) || ends_with(name, suf.as_slice())
}

/// Whether a file name names an archive: `.farc` at the end.
pub fn is_archive_name(name: &[u8]) -> (r: bool)
    ensures
        r == ends_with_spec(name@, seq![46u8, 102u8, 97u8, 114u8, 99u8]),
{
    let suf: [u8; 5] = [46, 102, 97, 114, 99];
    proof {
        assert(suf@ =~= seq![46u8, 102u8, 97u8, 114u8, 99u8]);
    }
    ends_with(name, suf.as_slice())
}

} // verus!
