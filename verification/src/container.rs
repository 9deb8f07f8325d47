//! A safety screen for the container declaration file.
//!
//! The container parser resolves the `full-path` attribute of the first
//! `rootfile` element of `META-INF/container.xml` and takes that path's
//! parent without checking that one exists: a crafted archive declaring a
//! rootless package path (an empty value, or one made of slashes alone)
//! would make it panic. This module screens the raw bytes of that file
//! before they reach the parser. The screen is conservative: it accepts
//! only containers in which every occurrence of the attribute name is a
//! plainly safe assignment — the name immediately followed by `=` and a
//! quoted, non-empty value that is not made of slashes alone and holds no
//! `&` (so no entity can decode it to something else) — and it rejects
//! byte-order marks that would put the text outside plain eight-bit
//! reading. Every real container declaration passes; everything the
//! parser could crash on is turned into an ordinary import error.

use vstd::prelude::*;

verus! {

/// A UTF-16 byte-order mark: the screen cannot read such text, so it
/// rejects it.
pub open spec fn utf16_bom(c: Seq<u8>) -> bool {
    c.len() >= 2 && ((c[0] == 0xfe && c[1] == 0xff) || (c[0] == 0xff && c[1] == 0xfe))
}

/// A double or single quote.
pub open spec fn quote_byte(b: u8) -> bool {
    b == 34 || b == 39
}

/// The bytes of the attribute name `full-path` start at `i`.
pub open spec fn full_path_name_at(c: Seq<u8>, i: int) -> bool {
    &&& 0 <= i
    &&& i + 9 <= c.len()
    &&& c[i] == 102 && c[i + 1] == 117 && c[i + 2] == 108 && c[i + 3] == 108 && c[i + 4] == 45
        && c[i + 5] == 112 && c[i + 6] == 97 && c[i + 7] == 116 && c[i + 8] == 104
}

/// `m` is the matching closing quote for the value opened at `q`.
pub open spec fn closes_value(c: Seq<u8>, q: int, m: int) -> bool {
    &&& q < m < c.len()
    &&& c[m] == c[q]
    &&& forall|t: int| q < t < m ==> c[t] != c[q]
}

/// The quoted bytes in `start..m` cannot strip to a rootless path: they
/// are non-empty, not slashes alone, and hold no `&`.
pub open spec fn safe_value(c: Seq<u8>, start: int, m: int) -> bool {
    &&& m > start
    &&& exists|t: int| start <= t < m && #[trigger] c[t] != 47
    &&& forall|t: int| start <= t < m ==> c[t] != 38
}

/// The occurrence of the attribute name at `i` is a plainly safe
/// assignment.
pub open spec fn plainly_safe_at(c: Seq<u8>, i: int) -> bool {
    &&& i + 11 <= c.len()
    &&& c[i + 9] == 61
    &&& quote_byte(c[i + 10])
    &&& exists|m: int| #[trigger] closes_value(c, i + 10, m) && safe_value(c, i + 11, m)
}

/// The whole screen: plain eight-bit text whose every `full-path`
/// occurrence is a plainly safe assignment.
pub open spec fn container_root_safe(c: Seq<u8>) -> bool {
    &&& !utf16_bom(c)
    &&& forall|i: int| full_path_name_at(c, i) ==> plainly_safe_at(c, i)
}

/// Whether the attribute name `full-path` starts at `i`.
fn name_matches(c: &Vec<u8>, i: usize) -> (r: bool)
    ensures
        r == full_path_name_at(c@, i as int),
{
    if i >= c.len() || c.len() - i < 9 {
        return false;
    }
    c[i] == 102 && c[i + 1] == 117 && c[i + 2] == 108 && c[i + 3] == 108 && c[i + 4] == 45 && c[i
        + 5] == 112 && c[i + 6] == 97 && c[i + 7] == 116 && c[i + 8] == 104
}

/// Whether the occurrence at `i` is a plainly safe assignment.
fn safe_assignment_at(c: &Vec<u8>, i: usize) -> (r: bool)
    requires
        full_path_name_at(c@, i as int),
    ensures
        r == plainly_safe_at(c@, i as int),
{
    if c.len() - i < 11 {
        return false;
    }
    if c[i + 9] != 61 {
        return false;
    }
    let q = c[i + 10];
    if q != 34 && q != 39 {
        return false;
    }
    let mut m: usize = i + 11;
    let mut nonslash = false;
    let mut amp = false;
    while m < c.len()
        invariant
            i + 11 <= m <= c@.len(),
            c@[i + 9] == 61,
            q == c@[i + 10],
            quote_byte(q),
            forall|t: int| i + 11 <= t < m ==> #[trigger] c@[t] != c@[i + 10],
            nonslash == exists|t: int| i + 11 <= t < m && #[trigger] c@[t] != 47,
            amp == exists|t: int| i + 11 <= t < m && #[trigger] c@[t] == 38,
        decreases c@.len() - m,
    {
        let b = c[m];
        if b == q {
            let ok = m > i + 11 && nonslash && !amp;
            proof {
                assert(closes_value(c@, i + 10, m as int));
                if ok {
                    assert(safe_value(c@, i + 11, m as int));
                } else {
                    assert forall|m2: int| #[trigger] closes_value(c@, i + 10, m2) implies !safe_value(
                        c@,
                        i + 11,
                        m2,
                    ) by {
                        if m2 < m {
                            assert(c@[m2] == c@[i + 10]);
                        } else if m2 > m {
                            assert(c@[m as int] != c@[i + 10]);
                        }
                        assert(m2 == m);
                    }
                }
            }
            return ok;
        }
        if b != 47 {
            proof {
                assert(c@[m as int] != 47);
            }
            nonslash = true;
        }
        if b == 38 {
            amp = true;
        }
        m = m + 1;
    }
    proof {
        assert forall|m2: int| !(#[trigger] closes_value(c@, i + 10, m2) && safe_value(
            c@,
            i + 11,
            m2,
        )) by {
            if i + 10 < m2 < c@.len() {
                assert(c@[m2] != c@[i + 10]);
            }
        }
    }
    false
}

/// Screen the raw container declaration bytes.
pub fn check_container_root(c: &Vec<u8>) -> (r: bool)
    ensures
        r == container_root_safe(c@),
{
    if c.len() >= 2 {
        let b0 = c[0];
        let b1 = c[1];
        if (b0 == 0xfe && b1 == 0xff) || (b0 == 0xff && b1 == 0xfe) {
            return false;
        }
    }
    let mut i: usize = 0;
    while i < c.len()
        invariant
            0 <= i <= c@.len(),
            !utf16_bom(c@),
            forall|i2: int| 0 <= i2 < i && full_path_name_at(c@, i2) ==> plainly_safe_at(c@, i2),
        decreases c@.len() - i,
    {
        if name_matches(c, i) {
            if !safe_assignment_at(c, i) {
                return false;
            }
        }
        i = i + 1;
    }
    true
}

} // verus!
