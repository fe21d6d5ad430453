//! String helpers used to check a declared module path against the one the
//! compiler reports, and to build the message shown when they disagree.
use vstd::prelude::*;
use vstd::string::StringSliceAdditionalSpecFns;
use vstd::utf8::{
    encode_utf8_valid_utf8, is_char_boundary_iff_not_is_continuation_byte,
    is_char_boundary_start_end_of_seq, is_continuation_byte, valid_utf8, valid_utf8_concat,
};

verus! {

/// The space byte, the only byte that the comparison below ignores.
pub const SPACE: u8 = 32;

/// `?`, what a fresh output buffer holds before it is filled.
const PLACEHOLDER: u8 = 63;

/// `s` with every space byte removed, the other bytes kept in order.
pub open spec fn strip_spaces(s: Seq<u8>) -> Seq<u8>
    decreases s.len(),
{
    if s.len() == 0 {
        Seq::empty()
    } else if s.last() == SPACE {
        strip_spaces(s.drop_last())
    } else {
        strip_spaces(s.drop_last()).push(s.last())
    }
}

/// Two byte strings are equal once their spaces are removed.
pub open spec fn eq_modulo_spaces(a: Seq<u8>, b: Seq<u8>) -> bool {
    strip_spaces(a) == strip_spaces(b)
}

/// Removing spaces from a concatenation removes them from each part.
pub proof fn lemma_strip_spaces_append(s: Seq<u8>, t: Seq<u8>)
    ensures
        strip_spaces(s + t) == strip_spaces(s) + strip_spaces(t),
    decreases t.len(),
{
    if t.len() == 0 {
        assert(s + t =~= s);
        assert(strip_spaces(s) + strip_spaces(t) =~= strip_spaces(s));
    } else {
        assert((s + t).drop_last() =~= s + t.drop_last());
        lemma_strip_spaces_append(s, t.drop_last());
        if t.last() != SPACE {
            assert(strip_spaces(s) + strip_spaces(t.drop_last()).push(t.last())
                =~= (strip_spaces(s) + strip_spaces(t.drop_last())).push(t.last()));
        }
    }
}

/// Taking one more byte of `s` adds that byte unless it is a space.
proof fn lemma_strip_spaces_take_next(s: Seq<u8>, i: int)
    requires
        0 <= i < s.len(),
    ensures
        s[i] == SPACE ==> strip_spaces(s.take(i + 1)) == strip_spaces(s.take(i)),
        s[i] != SPACE ==> strip_spaces(s.take(i + 1)) == strip_spaces(s.take(i)).push(s[i]),
{
    assert(s.take(i + 1).drop_last() =~= s.take(i));
}

/// Whether `a == b` once every space byte of each is removed.
pub fn eq_modulo_whitespace(a: &str, b: &str) -> (r: bool)
    ensures
        r == eq_modulo_spaces(a.spec_bytes(), b.spec_bytes()),
{
    let ab = a.as_bytes();
    let bb = b.as_bytes();
    let ghost sa = ab@;
    let ghost sb = bb@;
    let mut i: usize = 0;
    let mut j: usize = 0;
    loop
        invariant
            sa == ab@,
            sa == a.spec_bytes(),
            sb == b.spec_bytes(),
            sb == bb@,
            i <= ab.len(),
            j <= bb.len(),
            strip_spaces(sa.take(i as int)) == strip_spaces(sb.take(j as int)),
        decreases ab.len() - i,
    {
        let ghost i0 = i;
        while i < ab.len() && ab[i] == SPACE
            invariant
                sa == ab@,
                sa == a.spec_bytes(),
                sb == b.spec_bytes(),
                sb == bb@,
                i <= ab.len(),
                j <= bb.len(),
                strip_spaces(sa.take(i as int)) == strip_spaces(sb.take(j as int)),
                i0 <= i,
            decreases ab.len() - i,
        {
            proof {
                lemma_strip_spaces_take_next(sa, i as int);
            }
            i += 1;
        }
        while j < bb.len() && bb[j] == SPACE
            invariant
                sa == ab@,
                sa == a.spec_bytes(),
                sb == b.spec_bytes(),
                sb == bb@,
                i <= ab.len(),
                j <= bb.len(),
                strip_spaces(sa.take(i as int)) == strip_spaces(sb.take(j as int)),
                i0 <= i,
            decreases bb.len() - j,
        {
            proof {
                lemma_strip_spaces_take_next(sb, j as int);
            }
            j += 1;
        }
        let a_done = i >= ab.len();
        let b_done = j >= bb.len();
        if a_done && b_done {
            proof {
                assert(sa.take(i as int) =~= sa);
                assert(sb.take(j as int) =~= sb);
            }
            return true;
        }
        if a_done || b_done || ab[i] != bb[j] {
            proof {
                lemma_first_difference(sa, sb, i as int, j as int);
            }
            return false;
        }
        proof {
            lemma_strip_spaces_take_next(sa, i as int);
            lemma_strip_spaces_take_next(sb, j as int);
        }
        i += 1;
        j += 1;
    }
}

/// A space inserted anywhere is invisible to the comparison: so any two
/// strings that differ only by spaces compare equal.
pub proof fn lemma_inserted_space_ignored(s: Seq<u8>, i: int)
    requires
        0 <= i <= s.len(),
    ensures
        eq_modulo_spaces(s.insert(i, SPACE), s),
{
    let t = s.insert(i, SPACE);
    assert(s =~= s.take(i) + s.skip(i));
    assert(t =~= s.take(i) + (seq![SPACE] + s.skip(i)));
    lemma_strip_spaces_append(s.take(i), s.skip(i));
    lemma_strip_spaces_append(seq![SPACE], s.skip(i));
    lemma_strip_spaces_append(s.take(i), seq![SPACE] + s.skip(i));
    assert(seq![SPACE].drop_last() =~= Seq::<u8>::empty());
    reveal_with_fuel(strip_spaces, 2);
    assert(strip_spaces(seq![SPACE]) =~= Seq::<u8>::empty());
    assert(Seq::<u8>::empty() + strip_spaces(s.skip(i)) =~= strip_spaces(s.skip(i)));
}

/// Two strings that are the same but for one byte, where the two bytes differ,
/// never compare equal: at most one of them is a space, and a byte that is not
/// a space is always seen.
pub proof fn lemma_changed_byte_seen(p: Seq<u8>, q: Seq<u8>, c: u8, d: u8)
    requires
        c != d,
    ensures
        !eq_modulo_spaces(p.push(c) + q, p.push(d) + q),
{
    let a = p.push(c) + q;
    let b = p.push(d) + q;
    let n = p.len() as int;
    assert(a.take(n) =~= p);
    assert(b.take(n) =~= p);
    if c == SPACE {
        assert(a.take(n + 1) =~= p.push(c));
        assert(a.skip(n + 1) =~= q);
        assert(a =~= a.take(n + 1) + a.skip(n + 1));
        lemma_strip_spaces_take_next(a, n);
        lemma_strip_spaces_append(a.take(n + 1), a.skip(n + 1));
        lemma_split_at_visible(b, n);
        assert(b.skip(n + 1) =~= q);
        assert(strip_spaces(a).len() != strip_spaces(b).len());
    } else if d == SPACE {
        assert(b.take(n + 1) =~= p.push(d));
        assert(b.skip(n + 1) =~= q);
        assert(b =~= b.take(n + 1) + b.skip(n + 1));
        lemma_strip_spaces_take_next(b, n);
        lemma_strip_spaces_append(b.take(n + 1), b.skip(n + 1));
        lemma_split_at_visible(a, n);
        assert(a.skip(n + 1) =~= q);
        assert(strip_spaces(a).len() != strip_spaces(b).len());
    } else {
        lemma_first_difference(a, b, n, n);
    }
}

/// Where the stripped prefixes agree and the next visible bytes differ (or
/// only one side has one left), the stripped wholes differ.
proof fn lemma_first_difference(a: Seq<u8>, b: Seq<u8>, i: int, j: int)
    requires
        0 <= i <= a.len(),
        0 <= j <= b.len(),
        i < a.len() || j < b.len(),
        i < a.len() ==> a[i] != SPACE,
        j < b.len() ==> b[j] != SPACE,
        i < a.len() && j < b.len() ==> a[i] != b[j],
        strip_spaces(a.take(i)) == strip_spaces(b.take(j)),
    ensures
        !eq_modulo_spaces(a, b),
{
    let p = strip_spaces(a.take(i));
    if i < a.len() {
        lemma_split_at_visible(a, i);
    } else {
        assert(a.take(i) =~= a);
    }
    if j < b.len() {
        lemma_split_at_visible(b, j);
    } else {
        assert(b.take(j) =~= b);
    }
    if i < a.len() && j < b.len() {
        assert(strip_spaces(a)[p.len() as int] != strip_spaces(b)[p.len() as int]);
    } else {
        assert(strip_spaces(a).len() != strip_spaces(b).len());
    }
}

/// Splitting `s` before a byte that is not a space.
proof fn lemma_split_at_visible(s: Seq<u8>, i: int)
    requires
        0 <= i < s.len(),
        s[i] != SPACE,
    ensures
        strip_spaces(s) == strip_spaces(s.take(i)).push(s[i]) + strip_spaces(s.skip(i + 1)),
{
    assert(s =~= s.take(i + 1) + s.skip(i + 1));
    lemma_strip_spaces_append(s.take(i + 1), s.skip(i + 1));
    lemma_strip_spaces_take_next(s, i);
}

/// The part of `s` from the first occurrence of `b` on, or nothing where `b`
/// does not occur.
pub open spec fn from_first(s: Seq<u8>, b: u8) -> Seq<u8>
    decreases s.len(),
{
    if s.len() == 0 {
        s
    } else if s[0] == b {
        s
    } else {
        from_first(s.drop_first(), b)
    }
}

/// Returns the subslice starting at the first occurrence of `b` (or an empty
/// string otherwise). `b` must not be a UTF-8 continuation byte, so that the
/// cut falls between characters.
pub fn find_subslice(s: &str, b: u8) -> (r: &str)
    requires
        !is_continuation_byte(b),
    ensures
        r.spec_bytes() == from_first(s.spec_bytes(), b),
{
    let bytes = s.as_bytes();
    let ghost sb = bytes@;
    let mut i: usize = 0;
    assert(sb.skip(0) =~= sb);
    while i < bytes.len() && bytes[i] != b
        invariant
            sb == bytes@,
            sb == s.spec_bytes(),
            i <= bytes.len(),
            from_first(sb.skip(i as int), b) == from_first(sb, b),
        decreases bytes.len() - i,
    {
        proof {
            assert(sb.skip(i as int).drop_first() =~= sb.skip(i + 1));
        }
        i += 1;
    }
    proof {
        encode_utf8_valid_utf8(s@);
        if i < bytes.len() {
            is_char_boundary_iff_not_is_continuation_byte(sb, i as int);
        } else {
            is_char_boundary_start_end_of_seq(sb);
        }
        assert(sb.skip(i as int) =~= sb.subrange(i as int, sb.len() as int));
    }
    let (_, rest) = s.split_at(i);
    rest
}

/// The bytes of `parts`, one after the other.
pub open spec fn joined_bytes(parts: Seq<&str>) -> Seq<u8>
    decreases parts.len(),
{
    if parts.len() == 0 {
        Seq::empty()
    } else {
        joined_bytes(parts.drop_last()) + parts.last().spec_bytes()
    }
}

/// A prefix of the parts gives a prefix of the joined bytes.
proof fn lemma_joined_bytes_prefix(parts: Seq<&str>, k: int)
    requires
        0 <= k <= parts.len(),
    ensures
        joined_bytes(parts.take(k)).len() <= joined_bytes(parts).len(),
    decreases parts.len(),
{
    if k < parts.len() {
        assert(parts.drop_last().take(k) =~= parts.take(k));
        lemma_joined_bytes_prefix(parts.drop_last(), k);
    } else {
        assert(parts.take(k) =~= parts);
    }
}

/// Joined strings are valid UTF-8.
proof fn lemma_joined_bytes_valid(parts: Seq<&str>)
    ensures
        valid_utf8(joined_bytes(parts)),
    decreases parts.len(),
{
    if parts.len() > 0 {
        lemma_joined_bytes_valid(parts.drop_last());
        encode_utf8_valid_utf8(parts.last()@);
        valid_utf8_concat(joined_bytes(parts.drop_last()), parts.last().spec_bytes());
    }
}

/// Concatenates the bytes of `ss` into an array of exactly `N` bytes, which
/// must be the total length of the inputs. The result is valid UTF-8.
pub fn constcat<const N: usize, const NUM_INPUTS: usize>(ss: [&str; NUM_INPUTS]) -> (r: [u8; N])
    requires
        joined_bytes(ss@).len() == N,
    ensures
        r@ == joined_bytes(ss@),
        valid_utf8(r@),
{
    let mut ret: [u8; N] = [PLACEHOLDER; N];
    let ghost parts = ss@;
    let mut i: usize = 0;
    let mut k: usize = 0;
    while k < NUM_INPUTS
        invariant
            parts == ss@,
            parts.len() == NUM_INPUTS,
            joined_bytes(parts).len() == N,
            k <= NUM_INPUTS,
            i == joined_bytes(parts.take(k as int)).len(),
            ret@.len() == N,
            ret@.take(i as int) == joined_bytes(parts.take(k as int)),
        decreases NUM_INPUTS - k,
    {
        let s = ss[k].as_bytes();
        let ghost prefix = joined_bytes(parts.take(k as int));
        proof {
            assert(parts.take(k + 1).drop_last() =~= parts.take(k as int));
            lemma_joined_bytes_prefix(parts, k + 1);
        }
        let mut j: usize = 0;
        while j < s.len()
            invariant
                parts == ss@,
                parts.len() == NUM_INPUTS,
                joined_bytes(parts).len() == N,
                k < NUM_INPUTS,
                s@ == parts[k as int].spec_bytes(),
                joined_bytes(parts.take(k + 1)) == prefix + s@,
                joined_bytes(parts.take(k + 1)).len() <= N,
                prefix == joined_bytes(parts.take(k as int)),
                j <= s.len(),
                i == prefix.len() + j,
                ret@.len() == N,
                ret@.take(i as int) == prefix + s@.take(j as int),
            decreases s.len() - j,
        {
            let ghost before = ret@;
            ret[i] = s[j];
            proof {
                assert(ret@.take(i + 1) =~= before.take(i as int).push(s@[j as int]));
                assert(s@.take(j + 1) =~= s@.take(j as int).push(s@[j as int]));
                assert(ret@.take(i + 1) =~= prefix + s@.take(j + 1));
            }
            i += 1;
            j += 1;
        }
        proof {
            assert(s@.take(j as int) =~= s@);
        }
        k += 1;
    }
    proof {
        assert(parts.take(k as int) =~= parts);
        assert(ret@.take(i as int) =~= ret@);
        lemma_joined_bytes_valid(parts);
    }
    ret
}

} // verus!
