//! Little-endian byte strings and the natural numbers they encode.

use vstd::prelude::*;

verus! {

/// The natural number encoded by a byte string read in little-endian order.
pub open spec fn le_val(s: Seq<u8>) -> nat
    decreases s.len(),
{
    if s.len() == 0 {
        0
    } else {
        (s[0] + 256 * le_val(s.skip(1))) as nat
    }
}

/// 256 raised to the power `n`: the number of byte strings of length `n`.
pub open spec fn pow256(n: nat) -> nat
    decreases n,
{
    if n == 0 {
        1
    } else {
        256 * pow256((n - 1) as nat)
    }
}

/// The canonical little-endian encoding of `v` in `n` bytes.
pub open spec fn nat_to_le(v: nat, n: nat) -> Seq<u8>
    decreases n,
{
    if n == 0 {
        Seq::empty()
    } else {
        seq![(v % 256) as u8] + nat_to_le(v / 256, (n - 1) as nat)
    }
}

/// A byte string encodes a value below 256^len.
pub proof fn lemma_le_val_bound(s: Seq<u8>)
    ensures
        le_val(s) < pow256(s.len()),
    decreases s.len(),
{
    if s.len() == 0 {
    } else {
        lemma_le_val_bound(s.skip(1));
        assert(le_val(s) < pow256(s.len())) by (nonlinear_arith)
            requires
                le_val(s) == s[0] + 256 * le_val(s.skip(1)),
                s[0] < 256,
                le_val(s.skip(1)) < pow256((s.len() - 1) as nat),
                pow256(s.len()) == 256 * pow256((s.len() - 1) as nat),
        ;
    }
}

/// The first byte and the tail of a string are recovered from its value.
pub proof fn lemma_le_val_split(s: Seq<u8>)
    requires
        s.len() > 0,
    ensures
        s[0] == le_val(s) % 256,
        le_val(s.skip(1)) == le_val(s) / 256,
{
    vstd::arithmetic::div_mod::lemma_fundamental_div_mod_converse(
        le_val(s) as int,
        256,
        le_val(s.skip(1)) as int,
        s[0] as int,
    );
}

/// Two byte strings of one length with one value are the same string.
pub proof fn lemma_le_val_injective(s: Seq<u8>, t: Seq<u8>)
    requires
        s.len() == t.len(),
        le_val(s) == le_val(t),
    ensures
        s == t,
    decreases s.len(),
{
    if s.len() == 0 {
        assert(s =~= t);
    } else {
        lemma_le_val_split(s);
        lemma_le_val_split(t);
        lemma_le_val_injective(s.skip(1), t.skip(1));
        assert forall|i: int| 0 <= i < s.len() implies s[i] == t[i] by {
            if i > 0 {
                assert(s[i] == s.skip(1)[i - 1]);
                assert(t[i] == t.skip(1)[i - 1]);
            }
        }
        assert(s =~= t);
    }
}

/// The canonical encoding hits the requested length and value.
pub proof fn lemma_nat_to_le(v: nat, n: nat)
    requires
        v < pow256(n),
    ensures
        nat_to_le(v, n).len() == n,
        le_val(nat_to_le(v, n)) == v,
    decreases n,
{
    if n == 0 {
    } else {
        vstd::arithmetic::div_mod::lemma_fundamental_div_mod(v as int, 256);
        vstd::arithmetic::div_mod::lemma_multiply_divide_lt(
            v as int,
            256,
            pow256((n - 1) as nat) as int,
        );
        lemma_nat_to_le(v / 256, (n - 1) as nat);
        let s = nat_to_le(v, n);
        assert(s.skip(1) =~= nat_to_le(v / 256, (n - 1) as nat));
        assert(le_val(s) == (v % 256) + 256 * (v / 256));
    }
}

/// A string of zero bytes encodes zero, and only such a string does.
pub proof fn lemma_le_val_zero(s: Seq<u8>)
    ensures
        (le_val(s) == 0) <==> (forall|i: int| 0 <= i < s.len() ==> s[i] == 0),
    decreases s.len(),
{
    if s.len() == 0 {
    } else {
        lemma_le_val_zero(s.skip(1));
        if le_val(s) == 0 {
            assert(s[0] + 256 * le_val(s.skip(1)) == 0);
            assert forall|i: int| 0 <= i < s.len() implies s[i] == 0 by {
                if i > 0 {
                    assert(s[i] == s.skip(1)[i - 1]);
                }
            }
        } else {
            if forall|i: int| 0 <= i < s.len() ==> s[i] == 0 {
                assert forall|i: int| 0 <= i < s.skip(1).len() implies s.skip(1)[i] == 0 by {
                    assert(s.skip(1)[i] == s[i + 1]);
                }
                assert(le_val(s.skip(1)) == 0);
                assert(le_val(s) == 0);
            }
        }
    }
}

/// The concatenation of a sequence of byte strings.
pub open spec fn concat_of(s: Seq<Seq<u8>>) -> Seq<u8>
    decreases s.len(),
{
    if s.len() == 0 {
        Seq::empty()
    } else {
        s[0] + concat_of(s.skip(1))
    }
}

/// Appending one more piece extends the concatenation at the end.
pub proof fn lemma_concat_snoc(t: Seq<Seq<u8>>, x: Seq<u8>)
    ensures
        concat_of(t.push(x)) == concat_of(t) + x,
    decreases t.len(),
{
    if t.len() == 0 {
        assert(t.push(x).skip(1) =~= Seq::<Seq<u8>>::empty());
        assert(t.push(x)[0] == x);
        assert(concat_of(t.push(x)) == x + concat_of(Seq::<Seq<u8>>::empty()));
        assert(x + Seq::<u8>::empty() =~= x);
        assert(concat_of(t) + x =~= x);
    } else {
        assert(t.push(x).skip(1) =~= t.skip(1).push(x));
        lemma_concat_snoc(t.skip(1), x);
        assert(t.push(x)[0] == t[0]);
        assert(concat_of(t.push(x)) == t[0] + (concat_of(t.skip(1)) + x));
        assert(t[0] + (concat_of(t.skip(1)) + x) =~= (t[0] + concat_of(t.skip(1))) + x);
    }
}

/// Pieces cut from adjacent fixed-width windows of a string concatenate
/// back to the whole window.
pub proof fn lemma_concat_pieces(input: Seq<u8>, off: int, w: int, views: Seq<Seq<u8>>)
    requires
        w >= 0,
        0 <= off,
        off + w * views.len() <= input.len(),
        forall|i: int|
            0 <= i < views.len() ==> #[trigger] views[i] == input.subrange(
                off + w * i,
                off + w * (i + 1),
            ),
    ensures
        concat_of(views) == input.subrange(off, off + w * views.len()),
    decreases views.len(),
{
    if views.len() == 0 {
        assert(concat_of(views) =~= input.subrange(off, off));
    } else {
        assert forall|i: int| 0 <= i < views.skip(1).len() implies #[trigger] views.skip(1)[i]
            == input.subrange(off + w + w * i, off + w + w * (i + 1)) by {
            assert(views.skip(1)[i] == views[i + 1]);
            assert(w * (i + 1) == w * i + w) by (nonlinear_arith);
            assert(w * (i + 2) == w * (i + 1) + w) by (nonlinear_arith);
        }
        assert(w * views.len() == w * (views.len() - 1) + w) by (nonlinear_arith);
        lemma_concat_pieces(input, off + w, w, views.skip(1));
        assert(views[0] == input.subrange(off, off + w));
        assert(concat_of(views) == input.subrange(off, off + w) + input.subrange(
            off + w,
            off + w * views.len(),
        ));
        assert(input.subrange(off, off + w) + input.subrange(off + w, off + w * views.len())
            =~= input.subrange(off, off + w * views.len()));
    }
}

/// Copies `len` bytes starting at `start` out of a vector.
pub fn sub_bytes(v: &Vec<u8>, start: usize, len: usize) -> (r: Vec<u8>)
    requires
        start + len <= v@.len(),
    ensures
        r@ == v@.subrange(start as int, start as int + len as int),
{
    let n = v.len();
    let mut out: Vec<u8> = Vec::new();
    let mut i: usize = 0;
    while i < len
        invariant
            i <= len,
            n == v@.len(),
            start + len <= n,
            out@ == v@.subrange(start as int, start as int + i as int),
        decreases len - i,
    {
        out.push(v[start + i]);
        proof {
            assert(out@ =~= v@.subrange(start as int, start as int + i as int + 1));
        }
        i += 1;
    }
    out
}

/// Appends the bytes of `src` to `dst`.
pub fn append_bytes(dst: &mut Vec<u8>, src: &Vec<u8>)
    ensures
        final(dst)@ == old(dst)@ + src@,
{
    let mut i: usize = 0;
    while i < src.len()
        invariant
            i <= src@.len(),
            dst@ == old(dst)@ + src@.take(i as int),
        decreases src.len() - i,
    {
        dst.push(src[i]);
        proof {
            assert(dst@ =~= old(dst)@ + src@.take(i as int + 1));
        }
        i += 1;
    }
    proof {
        assert(old(dst)@ + src@.take(src@.len() as int) =~= old(dst)@ + src@);
    }
}

/// Appends the eight little-endian bytes of `v`.
pub fn push_u64_le(out: &mut Vec<u8>, v: u64)
    ensures
        final(out)@ == old(out)@ + nat_to_le(v as nat, 8),
{
    let ghost whole = nat_to_le(v as nat, 8);
    let mut x: u64 = v;
    let mut k: usize = 0;
    proof {
        assert(pow256(8) == 18446744073709551616) by {
            reveal_with_fuel(pow256, 9);
        }
        lemma_nat_to_le(v as nat, 8);
        assert(whole.skip(0) =~= whole);
        assert(out@ + whole.take(0) =~= out@);
    }
    while k < 8
        invariant
            k <= 8,
            whole == nat_to_le(v as nat, 8),
            whole.len() == 8,
            nat_to_le(x as nat, (8 - k) as nat) == whole.skip(k as int),
            out@ == old(out)@ + whole.take(k as int),
        decreases 8 - k,
    {
        let b = (x % 256) as u8;
        proof {
            let rest = nat_to_le(x as nat, (8 - k) as nat);
            assert(rest == seq![(x as nat % 256) as u8] + nat_to_le(
                x as nat / 256,
                (8 - k - 1) as nat,
            ));
            assert(rest[0] == (x as nat % 256) as u8);
            assert(whole.skip(k as int)[0] == whole[k as int]);
            assert(whole[k as int] == rest[0]);
            assert(whole.take(k as int + 1) =~= whole.take(k as int).push(whole[k as int]));
            assert(rest.skip(1) =~= nat_to_le(x as nat / 256, (8 - k - 1) as nat));
            assert(whole.skip(k as int).skip(1) =~= whole.skip(k as int + 1));
        }
        out.push(b);
        x = x / 256;
        k += 1;
        proof {
            assert(out@ =~= old(out)@ + whole.take(k as int));
        }
    }
    proof {
        assert(old(out)@ + whole.take(8) =~= old(out)@ + whole);
    }
}

/// Reads the little-endian integer held in eight bytes at `start`.
pub fn read_u64_le(v: &Vec<u8>, start: usize) -> (r: u64)
    requires
        start + 8 <= v@.len(),
    ensures
        r as nat == le_val(v@.subrange(start as int, start as int + 8)),
{
    let ghost s = v@.subrange(start as int, start as int + 8);
    let n = v.len();
    let mut acc: u64 = 0;
    let mut k: usize = 8;
    proof {
        assert(s.skip(8) =~= Seq::<u8>::empty());
    }
    while k > 0
        invariant
            k <= 8,
            n == v@.len(),
            start + 8 <= n,
            s == v@.subrange(start as int, start as int + 8),
            acc as nat == le_val(s.skip(k as int)),
        decreases k,
    {
        k -= 1;
        proof {
            lemma_le_val_bound(s.skip(k as int + 1));
            assert(pow256(s.skip(k as int + 1).len()) <= pow256(7)) by {
                lemma_pow256_le(s.skip(k as int + 1).len(), 7);
            }
            assert(pow256(7) * 256 == pow256(8)) by {
                assert(pow256(8) == 256 * pow256(7));
            }
            assert(pow256(8) == 18446744073709551616) by {
                reveal_with_fuel(pow256, 9);
            }
            assert(s[k as int] == v@.subrange(start as int, start as int + 8)[k as int]);
            assert(s.skip(k as int)[0] == s[k as int]);
            assert(s.skip(k as int).skip(1) =~= s.skip(k as int + 1));
        }
        let b = v[start + k];
        proof {
            assert(acc as nat * 256 + b <= (pow256(7) - 1) * 256 + 255) by (nonlinear_arith)
                requires
                    acc as nat <= pow256(7) - 1,
                    b < 256,
            ;
            assert((pow256(7) - 1) * 256 + 255 < pow256(8)) by (nonlinear_arith)
                requires
                    pow256(8) == 256 * pow256(7),
            ;
        }
        acc = acc * 256 + (b as u64);
    }
    proof {
        assert(s.skip(0) =~= s);
    }
    acc
}

/// `pow256` does not shrink as the exponent grows.
pub proof fn lemma_pow256_le(a: nat, b: nat)
    requires
        a <= b,
    ensures
        pow256(a) <= pow256(b),
    decreases b,
{
    if a < b {
        lemma_pow256_le(a, (b - 1) as nat);
        assert(pow256(b) == 256 * pow256((b - 1) as nat));
        assert(256 * pow256((b - 1) as nat) >= pow256((b - 1) as nat)) by (nonlinear_arith)
            requires
                pow256((b - 1) as nat) >= 0,
        ;
    }
}

/// Appending a zero byte does not change the encoded value.
pub proof fn lemma_le_val_push_zero(s: Seq<u8>)
    ensures
        le_val(s.push(0u8)) == le_val(s),
    decreases s.len(),
{
    let t = s.push(0u8);
    if s.len() == 0 {
        assert(t.skip(1) =~= Seq::<u8>::empty());
        assert(t[0] == 0u8);
        assert(le_val(t.skip(1)) == 0);
        assert(le_val(t) == (t[0] + 256 * le_val(t.skip(1))) as nat);
    } else {
        assert(t.skip(1) =~= s.skip(1).push(0u8));
        lemma_le_val_push_zero(s.skip(1));
        assert(t[0] == s[0]);
        assert(le_val(t) == (t[0] + 256 * le_val(t.skip(1))) as nat);
        assert(le_val(s) == (s[0] + 256 * le_val(s.skip(1))) as nat);
    }
}

/// Compares two byte vectors for equality.
pub fn bytes_eq(a: &Vec<u8>, b: &Vec<u8>) -> (r: bool)
    ensures
        r <==> (a@ == b@),
{
    if a.len() != b.len() {
        return false;
    }
    let mut i: usize = 0;
    while i < a.len()
        invariant
            i <= a.len(),
            a.len() == b.len(),
            forall|j: int| 0 <= j < i ==> a@[j] == b@[j],
        decreases a.len() - i,
    {
        if a[i] != b[i] {
            return false;
        }
        i += 1;
    }
    proof {
        assert(a@ =~= b@);
    }
    true
}

/// Copies a byte vector.
pub fn copy_bytes(src: &Vec<u8>) -> (r: Vec<u8>)
    ensures
        r@ == src@,
{
    let mut out: Vec<u8> = Vec::new();
    let mut i: usize = 0;
    while i < src.len()
        invariant
            i <= src.len(),
            out@ == src@.take(i as int),
        decreases src.len() - i,
    {
        out.push(src[i]);
        proof {
            assert(out@ =~= src@.take(i + 1));
        }
        i += 1;
    }
    proof {
        assert(out@ =~= src@);
    }
    out
}

} // verus!
