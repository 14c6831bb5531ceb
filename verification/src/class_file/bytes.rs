use vstd::prelude::*;

verus! {

/// The big-endian value of the first two bytes of `s`.
pub open spec fn spec_be_u16(s: Seq<u8>) -> u16 {
    (s[0] as int * 0x100 + s[1] as int) as u16
}

/// The big-endian value of the first four bytes of `s`.
pub open spec fn spec_be_u32(s: Seq<u8>) -> u32 {
    (s[0] as int * 0x1000000 + s[1] as int * 0x10000 + s[2] as int * 0x100 + s[3] as int) as u32
}

/// Joins two bytes, most significant first.
pub fn be_u16(b0: u8, b1: u8) -> (r: u16)
    ensures
        r == spec_be_u16(seq![b0, b1]),
        r as int == b0 as int * 0x100 + b1 as int,
{
    (b0 as u16) * 0x100 + (b1 as u16)
}

/// Joins four bytes, most significant first.
pub fn be_u32(b0: u8, b1: u8, b2: u8, b3: u8) -> (r: u32)
    ensures
        r == spec_be_u32(seq![b0, b1, b2, b3]),
        r as int == b0 as int * 0x1000000 + b1 as int * 0x10000 + b2 as int * 0x100 + b3 as int,
{
    (b0 as u32) * 0x1000000 + (b1 as u32) * 0x10000 + (b2 as u32) * 0x100 + (b3 as u32)
}

/// One byte from the front of `s`, and the rest.
pub open spec fn spec_take_u8(s: Seq<u8>) -> Option<(u8, Seq<u8>)> {
    if s.len() >= 1 {
        Some((s[0], s.skip(1)))
    } else {
        None
    }
}

/// A big-endian `u16` from the front of `s`, and the rest.
pub open spec fn spec_take_u16(s: Seq<u8>) -> Option<(u16, Seq<u8>)> {
    if s.len() >= 2 {
        Some((spec_be_u16(s), s.skip(2)))
    } else {
        None
    }
}

/// A big-endian `u32` from the front of `s`, and the rest.
pub open spec fn spec_take_u32(s: Seq<u8>) -> Option<(u32, Seq<u8>)> {
    if s.len() >= 4 {
        Some((spec_be_u32(s), s.skip(4)))
    } else {
        None
    }
}

/// The first `n` bytes of `s`, and the rest.
pub open spec fn spec_take_bytes(s: Seq<u8>, n: nat) -> Option<(Seq<u8>, Seq<u8>)> {
    if s.len() >= n {
        Some((s.take(n as int), s.skip(n as int)))
    } else {
        None
    }
}

/// `n` items read one after another with `p`.
pub open spec fn spec_repeat<T, E>(
    s: Seq<u8>,
    n: nat,
    p: spec_fn(Seq<u8>) -> Result<(T, Seq<u8>), E>,
) -> Result<(Seq<T>, Seq<u8>), E>
    decreases n,
{
    if n == 0 {
        Ok((Seq::<T>::empty(), s))
    } else {
        match p(s) {
            Ok((v, r)) => match spec_repeat(r, (n - 1) as nat, p) {
                Ok((vs, r2)) => Ok((seq![v] + vs, r2)),
                Err(e) => Err(e),
            },
            Err(e) => Err(e),
        }
    }
}

/// What remains to be read, given the items already read (`done`), matches the whole.
pub open spec fn spec_repeat_from<T, E>(
    done: Seq<T>,
    s: Seq<u8>,
    n: nat,
    p: spec_fn(Seq<u8>) -> Result<(T, Seq<u8>), E>,
) -> Result<(Seq<T>, Seq<u8>), E> {
    match spec_repeat(s, n, p) {
        Ok((vs, r)) => Ok((done + vs, r)),
        Err(e) => Err(e),
    }
}

/// One step of reading a repetition: read an item, then go on with one fewer.
pub proof fn lemma_repeat_step<T, E>(
    done: Seq<T>,
    s: Seq<u8>,
    n: nat,
    p: spec_fn(Seq<u8>) -> Result<(T, Seq<u8>), E>,
)
    requires
        n > 0,
    ensures
        p(s) matches Ok((v, r)) ==> spec_repeat_from(done, s, n, p) == spec_repeat_from(
            done.push(v),
            r,
            (n - 1) as nat,
            p,
        ),
        p(s) matches Err(e) ==> spec_repeat_from(done, s, n, p) == Err::<(Seq<T>, Seq<u8>), E>(
            e,
        ),
{
    if let Ok((v, r)) = p(s) {
        if let Ok((vs, r2)) = spec_repeat(r, (n - 1) as nat, p) {
            assert(done + (seq![v] + vs) == done.push(v) + vs);
        }
    }
}

/// The end of a repetition.
pub proof fn lemma_repeat_done<T, E>(
    done: Seq<T>,
    s: Seq<u8>,
    p: spec_fn(Seq<u8>) -> Result<(T, Seq<u8>), E>,
)
    ensures
        spec_repeat_from(done, s, 0, p) == Ok::<_, E>((done, s)),
{
    assert(done + Seq::<T>::empty() == done);
}

/// The big-endian `u16` at byte `i` of `s`.
pub open spec fn be16_at(s: Seq<u8>, i: int) -> int {
    s[i] as int * 256 + s[i + 1] as int
}

/// The big-endian `u32` at byte `i` of `s`.
pub open spec fn be32_at(s: Seq<u8>, i: int) -> int {
    s[i] as int * 16777216 + s[i + 1] as int * 65536 + s[i + 2] as int * 256 + s[i + 3] as int
}

/// Repeating a reader that takes `w` bytes and decodes them with `f` reads
/// `w * n` bytes, and item `i` is `f` of the bytes from `w * i` on.
pub proof fn lemma_repeat_fixed<T, E>(
    s: Seq<u8>,
    n: nat,
    p: spec_fn(Seq<u8>) -> Result<(T, Seq<u8>), E>,
    w: nat,
    f: spec_fn(Seq<u8>) -> T,
)
    requires
        w > 0,
        forall|x: Seq<u8>|
            #![trigger p(x)]
            (x.len() >= w ==> p(x) == Ok::<(T, Seq<u8>), E>((f(x), x.skip(w as int)))) && (x.len()
                < w ==> p(x) is Err),
    ensures
        spec_repeat(s, n, p) matches Ok((vs, r)) ==> {
            &&& s.len() >= w * n
            &&& vs.len() == n
            &&& r == s.skip((w * n) as int)
            &&& forall|i: int| 0 <= i < n ==> #[trigger] vs[i] == f(s.skip(w * i))
        },
    decreases n,
{
    if n > 0 {
        if let Ok((v, r1)) = p(s) {
            let r1 = s.skip(w as int);
            lemma_repeat_fixed(r1, (n - 1) as nat, p, w, f);
            if let Ok((vs1, r2)) = spec_repeat(r1, (n - 1) as nat, p) {
                let vs = seq![f(s)] + vs1;
                assert(w * n == w + w * (n - 1)) by (nonlinear_arith);
                assert(r2 == s.skip((w * n) as int));
                assert forall|i: int| 0 <= i < n implies #[trigger] vs[i] == f(s.skip(w * i)) by {
                    if i == 0 {
                        assert(s.skip(w * i) == s) by {
                            assert(w * i == 0) by (nonlinear_arith)
                                requires
                                    i == 0,
                            ;
                        }
                    } else {
                        assert(w * i == w + w * (i - 1)) by (nonlinear_arith);
                        assert(0 <= w * (i - 1)) by (nonlinear_arith)
                            requires
                                i >= 1,
                        ;
                        assert(w * i <= w * n) by (nonlinear_arith)
                            requires
                                i < n,
                        ;
                        assert(r1.skip(w * (i - 1)) =~= s.skip(w * i));
                        assert(vs[i] == vs1[i - 1]);
                    }
                }
            }
        }
    }
}

} // verus!
