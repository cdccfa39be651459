//! Byte-level text utilities for the command interpreter: lowercasing, the
//! boolean shorthand substitution, whitespace tokenizing, trimming,
//! semicolon splitting, and integer / boolean argument parsing.

use vstd::prelude::*;

verus! {

/// ASCII whitespace, as the tokenizer understands it.
pub open spec fn is_ws(b: u8) -> bool {
    b == 32 || (9 <= b <= 13)
}

/// ASCII lowercasing of one byte.
pub open spec fn lower_byte(b: u8) -> u8 {
    if 65 <= b <= 90 { (b + 32) as u8 } else { b }
}

/// ASCII lowercasing of a whole line.
pub open spec fn spec_lower(s: Seq<u8>) -> Seq<u8> {
    Seq::new(s.len(), |i: int| lower_byte(s[i]))
}

/// Replace every occurrence of the two-byte pattern `space p` by `rep`,
/// left to right, without rescanning replacements.
pub open spec fn spec_replace2(s: Seq<u8>, p: u8, rep: Seq<u8>) -> Seq<u8>
    decreases s.len(),
{
    if s.len() >= 2 && s[0] == 32 && s[1] == p {
        rep + spec_replace2(s.skip(2), p, rep)
    } else if s.len() >= 1 {
        seq![s[0]] + spec_replace2(s.skip(1), p, rep)
    } else {
        Seq::empty()
    }
}

/// The bytes of `" true"`.
pub open spec fn rep_true() -> Seq<u8> {
    seq![32u8, 116, 114, 117, 101]
}

/// The bytes of `" false"`.
pub open spec fn rep_false() -> Seq<u8> {
    seq![32u8, 102, 97, 108, 115, 101]
}

/// The boolean shorthand substitution: `" t"` becomes `" true"`, then
/// `" f"` becomes `" false"`.
pub open spec fn spec_subst(s: Seq<u8>) -> Seq<u8> {
    spec_replace2(spec_replace2(s, 116, rep_true()), 102, rep_false())
}

/// Length of the maximal non-whitespace prefix.
pub open spec fn token_len(s: Seq<u8>) -> nat
    decreases s.len(),
{
    if s.len() == 0 || is_ws(s[0]) { 0 } else { 1 + token_len(s.skip(1)) }
}

pub proof fn lemma_token_len_le(s: Seq<u8>)
    ensures
        token_len(s) <= s.len(),
    decreases s.len(),
{
    if !(s.len() == 0 || is_ws(s[0])) {
        lemma_token_len_le(s.skip(1));
    }
}

/// The whitespace-separated tokens of a line.
pub open spec fn spec_tokens(s: Seq<u8>) -> Seq<Seq<u8>>
    decreases s.len(),
{
    if s.len() == 0 {
        Seq::empty()
    } else if is_ws(s[0]) {
        spec_tokens(s.skip(1))
    } else {
        proof {
            lemma_token_len_le(s);
        }
        seq![s.take(token_len(s) as int)] + spec_tokens(s.skip(token_len(s) as int))
    }
}

/// The tokens the interpreter dispatches on: lowercase, substitute the
/// boolean shorthand, then split on whitespace.
pub open spec fn cooked_tokens(s: Seq<u8>) -> Seq<Seq<u8>> {
    spec_tokens(spec_subst(spec_lower(s)))
}

pub open spec fn trim_front(s: Seq<u8>) -> Seq<u8>
    decreases s.len(),
{
    if s.len() > 0 && is_ws(s[0]) { trim_front(s.skip(1)) } else { s }
}

pub open spec fn trim_back(s: Seq<u8>) -> Seq<u8>
    decreases s.len(),
{
    if s.len() > 0 && is_ws(s.last()) { trim_back(s.drop_last()) } else { s }
}

/// The line with leading and trailing whitespace removed.
pub open spec fn spec_trim(s: Seq<u8>) -> Seq<u8> {
    trim_back(trim_front(s))
}

/// Index of the first semicolon, or the length if there is none.
pub open spec fn find_semi(s: Seq<u8>) -> nat
    decreases s.len(),
{
    if s.len() == 0 { 0 } else if s[0] == 59 { 0 } else { (1 + find_semi(s.skip(1))) as nat }
}

/// The segments of a script: the text split on `;`, keeping empty pieces.
pub open spec fn spec_split(s: Seq<u8>) -> Seq<Seq<u8>>
    decreases s.len(),
{
    let k = find_semi(s);
    if k >= s.len() {
        seq![s]
    } else {
        seq![s.take(k as int)] + spec_split(s.skip(k as int + 1))
    }
}

pub open spec fn is_digit(b: u8) -> bool {
    48 <= b <= 57
}

pub open spec fn all_digits(s: Seq<u8>) -> bool {
    forall|i: int| 0 <= i < s.len() ==> is_digit(#[trigger] s[i])
}

/// The value of a run of decimal digits.
pub open spec fn digits_val(s: Seq<u8>) -> int
    decreases s.len(),
{
    if s.len() == 0 { 0 } else { digits_val(s.take(s.len() - 1)) * 10 + (s.last() - 48) }
}

/// The signed 32-bit integer a token denotes: an optional sign, at least
/// one digit, nothing else, and a value within the `i32` range.
pub open spec fn spec_parse_i32(s: Seq<u8>) -> Option<int> {
    let neg = s.len() >= 1 && s[0] == 45;
    let has_sign = s.len() >= 1 && (s[0] == 43 || s[0] == 45);
    let ds = if has_sign { s.skip(1) } else { s };
    if ds.len() >= 1 && all_digits(ds) {
        let v = if neg { -digits_val(ds) } else { digits_val(ds) };
        if -0x8000_0000 <= v <= 0x7fff_ffff { Some(v) } else { None }
    } else {
        None
    }
}

/// The bytes of `"true"`.
pub open spec fn tok_true() -> Seq<u8> {
    seq![116u8, 114, 117, 101]
}

/// The bytes of `"false"`.
pub open spec fn tok_false() -> Seq<u8> {
    seq![102u8, 97, 108, 115, 101]
}

/// The boolean a token denotes: exactly `true` or `false`.
pub open spec fn spec_parse_bool(s: Seq<u8>) -> Option<bool> {
    if s == tok_true() { Some(true) } else if s == tok_false() { Some(false) } else { None }
}

/// The byte sequences of a list of byte vectors.
pub open spec fn views(ts: Seq<Vec<u8>>) -> Seq<Seq<u8>> {
    Seq::new(ts.len(), |k: int| ts[k]@)
}

proof fn lemma_digits_val_nonneg(s: Seq<u8>)
    requires
        all_digits(s),
    ensures
        digits_val(s) >= 0,
    decreases s.len(),
{
    if s.len() > 0 {
        assert(all_digits(s.take(s.len() - 1)));
        lemma_digits_val_nonneg(s.take(s.len() - 1));
    }
}

proof fn lemma_token_len_at(s: Seq<u8>, m: int)
    requires
        0 <= m <= s.len(),
        forall|t: int| 0 <= t < m ==> !is_ws(#[trigger] s[t]),
        m == s.len() || is_ws(s[m]),
    ensures
        token_len(s) == m,
    decreases m,
{
    if m > 0 {
        lemma_token_len_at(s.skip(1), m - 1);
    }
}

pub proof fn lemma_find_semi_at(s: Seq<u8>, m: int)
    requires
        0 <= m <= s.len(),
        forall|t: int| 0 <= t < m ==> #[trigger] s[t] != 59,
        m == s.len() || s[m] == 59,
    ensures
        find_semi(s) == m,
    decreases m,
{
    if m > 0 {
        lemma_find_semi_at(s.skip(1), m - 1);
    }
}

/// ASCII-lowercase a line.
#[verifier::loop_isolation(false)]
pub fn lower_vec(s: &Vec<u8>) -> (r: Vec<u8>)
    ensures
        r@ == spec_lower(s@),
{
    let mut r: Vec<u8> = Vec::new();
    let mut i: usize = 0;
    while i < s.len()
        invariant
            0 <= i <= s@.len(),
            r@.len() == i as int,
            forall|t: int| 0 <= t < i as int ==> r@[t] == lower_byte(s@[t]),
        decreases s@.len() - i,
    {
        let b = s[i];
        if 65 <= b && b <= 90 {
            r.push(b + 32);
        } else {
            r.push(b);
        }
        i = i + 1;
    }
    assert(r@ =~= spec_lower(s@));
    r
}

/// Replace the two-byte pattern `space p` by `rep`, left to right.
#[verifier::loop_isolation(false)]
#[verifier::rlimit(60)]
pub fn replace2_vec(s: &Vec<u8>, p: u8, rep: &Vec<u8>) -> (r: Vec<u8>)
    ensures
        r@ == spec_replace2(s@, p, rep@),
{
    let mut r: Vec<u8> = Vec::new();
    let mut i: usize = 0;
    proof {
        assert(s@.skip(0) =~= s@);
        assert(r@ + spec_replace2(s@, p, rep@) =~= spec_replace2(s@, p, rep@));
    }
    while i < s.len()
        invariant
            0 <= i <= s@.len(),
            spec_replace2(s@, p, rep@) == r@ + spec_replace2(s@.skip(i as int), p, rep@),
        decreases s@.len() - i,
    {
        if i + 1 < s.len() && s[i] == 32 && s[i + 1] == p {
            let ghost r0 = r@;
            let mut k: usize = 0;
            while k < rep.len()
                invariant
                    0 <= k <= rep@.len(),
                    r@ == r0 + rep@.take(k as int),
                decreases rep@.len() - k,
            {
                r.push(rep[k]);
                proof {
                    assert(r@ =~= r0 + rep@.take(k as int + 1));
                }
                k = k + 1;
            }
            proof {
                assert(rep@.take(rep@.len() as int) =~= rep@);
                assert(s@.skip(i as int).skip(2) =~= s@.skip(i as int + 2));
                assert(spec_replace2(s@.skip(i as int), p, rep@)
                    == rep@ + spec_replace2(s@.skip(i as int + 2), p, rep@));
            }
            i = i + 2;
        } else {
            let ghost su = s@.skip(i as int);
            proof {
                assert(su[0] == s@[i as int]);
                assert(!(su.len() >= 2 && su[0] == 32 && su[1] == p));
                assert(su.skip(1) =~= s@.skip(i as int + 1));
                assert(spec_replace2(su, p, rep@)
                    == seq![s@[i as int]] + spec_replace2(s@.skip(i as int + 1), p, rep@));
            }
            r.push(s[i]);
            i = i + 1;
        }
        proof {
            assert(r@ + spec_replace2(s@.skip(i as int), p, rep@)
                =~= spec_replace2(s@, p, rep@));
        }
    }
    proof {
        assert(s@.skip(s@.len() as int) =~= Seq::<u8>::empty());
        assert(r@ =~= spec_replace2(s@, p, rep@));
    }
    r
}

/// Apply the boolean shorthand substitution.
pub fn subst_vec(s: &Vec<u8>) -> (r: Vec<u8>)
    ensures
        r@ == spec_subst(s@),
{
    let rep_t: Vec<u8> = vec![32u8, 116, 114, 117, 101];
    let rep_f: Vec<u8> = vec![32u8, 102, 97, 108, 115, 101];
    proof {
        assert(rep_t@ =~= rep_true());
        assert(rep_f@ =~= rep_false());
    }
    let pass1 = replace2_vec(s, 116, &rep_t);
    replace2_vec(&pass1, 102, &rep_f)
}

/// Split a cooked line into whitespace-separated tokens.
#[verifier::loop_isolation(false)]
#[verifier::rlimit(60)]
pub fn tokenize_vec(s: &Vec<u8>) -> (toks: Vec<Vec<u8>>)
    ensures
        views(toks@) == spec_tokens(s@),
{
    let mut toks: Vec<Vec<u8>> = Vec::new();
    let mut i: usize = 0;
    proof {
        assert(s@.skip(0) =~= s@);
        assert(views(toks@) + spec_tokens(s@) =~= spec_tokens(s@));
    }
    while i < s.len()
        invariant
            0 <= i <= s@.len(),
            spec_tokens(s@) == views(toks@) + spec_tokens(s@.skip(i as int)),
        decreases s@.len() - i,
    {
        let b = s[i];
        if b == 32 || (9 <= b && b <= 13) {
            proof {
                assert(s@.skip(i as int).skip(1) =~= s@.skip(i as int + 1));
            }
            i = i + 1;
        } else {
            let start = i;
            let mut tok: Vec<u8> = Vec::new();
            while i < s.len() && !(s[i] == 32 || (9 <= s[i] && s[i] <= 13))
                invariant
                    start <= i <= s@.len(),
                    tok@ == s@.subrange(start as int, i as int),
                    forall|t: int| start as int <= t < i as int ==> !is_ws(#[trigger] s@[t]),
                decreases s@.len() - i,
            {
                tok.push(s[i]);
                proof {
                    assert(tok@ =~= s@.subrange(start as int, i as int + 1));
                }
                i = i + 1;
            }
            proof {
                let su = s@.skip(start as int);
                lemma_token_len_at(su, i as int - start as int);
                assert(su.take(i as int - start as int) =~= s@.subrange(start as int, i as int));
                assert(su.skip(i as int - start as int) =~= s@.skip(i as int));
            }
            toks.push(tok);
            proof {
                assert(views(toks@) =~= views(toks@.take(toks@.len() - 1))
                    + seq![s@.subrange(start as int, i as int)]);
                assert(views(toks@.take(toks@.len() - 1)) =~= views(toks@).take(
                    toks@.len() - 1));
                assert(spec_tokens(s@) =~= views(toks@) + spec_tokens(s@.skip(i as int)));
            }
        }
    }
    proof {
        assert(s@.skip(s@.len() as int) =~= Seq::<u8>::empty());
        assert(views(toks@) =~= spec_tokens(s@));
    }
    toks
}

/// Remove leading and trailing whitespace.
#[verifier::loop_isolation(false)]
pub fn trim_vec(s: &Vec<u8>) -> (r: Vec<u8>)
    ensures
        r@ == spec_trim(s@),
{
    let mut lo: usize = 0;
    while lo < s.len() && (s[lo] == 32 || (9 <= s[lo] && s[lo] <= 13))
        invariant
            0 <= lo <= s@.len(),
            forall|t: int| 0 <= t < lo as int ==> is_ws(#[trigger] s@[t]),
        decreases s@.len() - lo,
    {
        lo = lo + 1;
    }
    let mut hi: usize = s.len();
    while hi > lo && (s[hi - 1] == 32 || (9 <= s[hi - 1] && s[hi - 1] <= 13))
        invariant
            lo <= hi <= s@.len(),
            forall|t: int| hi as int <= t < s@.len() ==> is_ws(#[trigger] s@[t]),
        decreases hi,
    {
        hi = hi - 1;
    }
    let mut r: Vec<u8> = Vec::new();
    let mut i: usize = lo;
    while i < hi
        invariant
            lo <= i <= hi <= s@.len(),
            r@ == s@.subrange(lo as int, i as int),
        decreases hi - i,
    {
        r.push(s[i]);
        proof {
            assert(r@ =~= s@.subrange(lo as int, i as int + 1));
        }
        i = i + 1;
    }
    proof {
        lemma_trim_front_at(s@, lo as int);
        let tf = s@.skip(lo as int);
        lemma_trim_back_at(tf, hi as int - lo as int);
        assert(tf.take(hi as int - lo as int) =~= s@.subrange(lo as int, hi as int));
        assert(r@ =~= spec_trim(s@));
    }
    r
}

proof fn lemma_trim_front_at(s: Seq<u8>, m: int)
    requires
        0 <= m <= s.len(),
        forall|t: int| 0 <= t < m ==> is_ws(#[trigger] s[t]),
        m == s.len() || !is_ws(s[m]),
    ensures
        trim_front(s) == s.skip(m),
    decreases m,
{
    if m > 0 {
        lemma_trim_front_at(s.skip(1), m - 1);
        assert(s.skip(1).skip(m - 1) =~= s.skip(m));
    } else {
        assert(s.skip(0) =~= s);
    }
}

proof fn lemma_trim_back_at(s: Seq<u8>, m: int)
    requires
        0 <= m <= s.len(),
        forall|t: int| m <= t < s.len() ==> is_ws(#[trigger] s[t]),
        m == 0 || !is_ws(s[m - 1]),
    ensures
        trim_back(s) == s.take(m),
    decreases s.len() - m,
{
    if m < s.len() {
        lemma_trim_back_at(s.drop_last(), m);
        assert(s.drop_last().take(m) =~= s.take(m));
    } else {
        assert(s.take(s.len() as int) =~= s);
    }
}

/// Split a script on semicolons, keeping empty segments.
#[verifier::loop_isolation(false)]
#[verifier::rlimit(60)]
pub fn split_semi(s: &Vec<u8>) -> (segs: Vec<Vec<u8>>)
    ensures
        views(segs@) == spec_split(s@),
{
    let mut segs: Vec<Vec<u8>> = Vec::new();
    let mut i: usize = 0;
    let mut seg: Vec<u8> = Vec::new();
    let ghost mut segstart: int = 0;
    proof {
        assert(s@.skip(0) =~= s@);
        assert(seg@ =~= s@.subrange(0, 0));
        assert(views(segs@) + spec_split(s@) =~= spec_split(s@));
    }
    while i < s.len()
        invariant
            0 <= segstart <= i as int <= s@.len(),
            seg@ == s@.subrange(segstart, i as int),
            forall|t: int| segstart <= t < i as int ==> #[trigger] s@[t] != 59,
            spec_split(s@) == views(segs@) + spec_split(s@.skip(segstart)),
        decreases s@.len() - i,
    {
        let b = s[i];
        if b == 59 {
            proof {
                let su = s@.skip(segstart);
                lemma_find_semi_at(su, i as int - segstart);
                assert(su.take(i as int - segstart) =~= s@.subrange(segstart, i as int));
                assert(su.skip(i as int - segstart + 1) =~= s@.skip(i as int + 1));
            }
            segs.push(seg);
            seg = Vec::new();
            proof {
                assert(views(segs@) =~= views(segs@).take(segs@.len() - 1)
                    + seq![s@.subrange(segstart, i as int)]);
                assert(views(segs@).take(segs@.len() - 1) =~= views(segs@.take(
                    segs@.len() - 1)));
                segstart = i as int + 1;
                assert(seg@ =~= s@.subrange(segstart, i as int + 1));
                assert(spec_split(s@) =~= views(segs@) + spec_split(s@.skip(segstart)));
            }
        } else {
            seg.push(b);
            proof {
                assert(seg@ =~= s@.subrange(segstart, i as int + 1));
            }
        }
        i = i + 1;
    }
    proof {
        let su = s@.skip(segstart);
        lemma_find_semi_at(su, s@.len() - segstart);
        assert(su.take(s@.len() - segstart) =~= s@.subrange(segstart, s@.len() as int));
        assert(seg@ =~= su);
        assert(spec_split(su) == seq![su]);
    }
    segs.push(seg);
    proof {
        assert(views(segs@) =~= views(segs@).take(segs@.len() - 1) + seq![s@.skip(segstart)]);
        assert(views(segs@).take(segs@.len() - 1) =~= views(segs@.take(segs@.len() - 1)));
        assert(views(segs@) =~= spec_split(s@));
    }
    segs
}

/// Whether two byte vectors hold the same bytes.
#[verifier::loop_isolation(false)]
pub fn bytes_eq(a: &Vec<u8>, b: &Vec<u8>) -> (r: bool)
    ensures
        r == (a@ == b@),
{
    if a.len() != b.len() {
        return false;
    }
    let mut i: usize = 0;
    while i < a.len()
        invariant
            0 <= i <= a@.len(),
            a@.len() == b@.len(),
            forall|t: int| 0 <= t < i as int ==> a@[t] == b@[t],
        decreases a@.len() - i,
    {
        if a[i] != b[i] {
            return false;
        }
        i = i + 1;
    }
    proof {
        assert(a@ =~= b@);
    }
    true
}

/// Parse a signed 32-bit integer token.
#[verifier::loop_isolation(false)]
#[verifier::rlimit(60)]
pub fn parse_i32_tok(t: &Vec<u8>) -> (r: Option<i32>)
    ensures
        match r {
            Some(v) => spec_parse_i32(t@) == Some(v as int),
            None => spec_parse_i32(t@) is None,
        },
{
    let n = t.len();
    let has_sign = n >= 1 && (t[0] == 43 || t[0] == 45);
    let neg = n >= 1 && t[0] == 45;
    let start: usize = if has_sign { 1 } else { 0 };
    let ghost ds = if has_sign { t@.skip(1) } else { t@ };
    if n == start {
        return None;
    }
    let mut acc: u64 = 0;
    let mut k: usize = start;
    while k < n
        invariant
            start <= k <= n,
            n == t@.len(),
            forall|u: int| start as int <= u < k as int ==> is_digit(#[trigger] t@[u]),
            acc <= 0x8000_0001,
            acc < 0x8000_0001 ==> acc as int == digits_val(t@.subrange(start as int, k as int)),
            acc == 0x8000_0001 ==> digits_val(t@.subrange(start as int, k as int))
                > 0x8000_0000,
        decreases n - k,
    {
        let b = t[k];
        if b < 48 || b > 57 {
            proof {
                assert(ds[k as int - start as int] == t@[k as int]);
                assert(!all_digits(ds));
            }
            return None;
        }
        let d = (b - 48) as u64;
        let ghost prefix = t@.subrange(start as int, k as int);
        let ghost prefix2 = t@.subrange(start as int, k as int + 1);
        proof {
            assert(prefix2.take(prefix2.len() - 1) =~= prefix);
            assert(prefix2.last() == t@[k as int]);
            assert(digits_val(prefix2) == digits_val(prefix) * 10 + (b - 48));
            assert(all_digits(prefix));
            lemma_digits_val_nonneg(prefix);
        }
        acc = acc * 10 + d;
        if acc > 0x8000_0000 {
            acc = 0x8000_0001;
        }
        k = k + 1;
    }
    proof {
        assert(t@.subrange(start as int, n as int) =~= ds);
        assert(all_digits(ds));
        assert(ds.len() >= 1);
    }
    if neg {
        if acc > 0x8000_0000 {
            None
        } else {
            Some((-(acc as i64)) as i32)
        }
    } else {
        if acc > 0x7fff_ffff {
            None
        } else {
            Some(acc as i32)
        }
    }
}

/// Parse a boolean token: exactly `true` or `false`.
pub fn parse_bool_tok(t: &Vec<u8>) -> (r: Option<bool>)
    ensures
        match r {
            Some(v) => spec_parse_bool(t@) == Some(v),
            None => spec_parse_bool(t@) is None,
        },
{
    let lit_t: Vec<u8> = vec![116u8, 114, 117, 101];
    let lit_f: Vec<u8> = vec![102u8, 97, 108, 115, 101];
    proof {
        assert(lit_t@ =~= tok_true());
        assert(lit_f@ =~= tok_false());
    }
    if bytes_eq(t, &lit_t) {
        Some(true)
    } else if bytes_eq(t, &lit_f) {
        Some(false)
    } else {
        None
    }
}

/// Entirely ASCII whitespace.
pub open spec fn all_ws(s: Seq<u8>) -> bool {
    forall|i: int| 0 <= i < s.len() ==> is_ws(#[trigger] s[i])
}

/// Free of semicolons.
pub open spec fn no_semi(s: Seq<u8>) -> bool {
    forall|i: int| 0 <= i < s.len() ==> #[trigger] s[i] != 59
}

pub proof fn lemma_lower_concat(a: Seq<u8>, b: Seq<u8>)
    ensures
        spec_lower(a + b) == spec_lower(a) + spec_lower(b),
{
    assert(spec_lower(a + b) =~= spec_lower(a) + spec_lower(b));
}

pub proof fn lemma_lower_ws_id(w: Seq<u8>)
    requires
        all_ws(w),
    ensures
        spec_lower(w) == w,
{
    assert(spec_lower(w) =~= w);
}

pub proof fn lemma_replace2_concat(a: Seq<u8>, b: Seq<u8>, p: u8, rep: Seq<u8>)
    requires
        !(a.len() > 0 && b.len() > 0 && a.last() == 32 && b[0] == p),
    ensures
        spec_replace2(a + b, p, rep) == spec_replace2(a, p, rep) + spec_replace2(b, p, rep),
    decreases a.len(),
{
    let ab = a + b;
    if a.len() == 0 {
        assert(ab =~= b);
        assert(spec_replace2(a, p, rep) + spec_replace2(b, p, rep)
            =~= spec_replace2(b, p, rep));
    } else if a.len() == 1 {
        if b.len() == 0 {
            assert(ab =~= a);
            assert(spec_replace2(a, p, rep) + spec_replace2(b, p, rep)
                =~= spec_replace2(a, p, rep));
        } else {
            assert(ab[0] == a[0] && ab[1] == b[0]);
            assert(!(ab.len() >= 2 && ab[0] == 32 && ab[1] == p));
            assert(ab.skip(1) =~= b);
            assert(a.skip(1) =~= Seq::<u8>::empty());
            assert(spec_replace2(a.skip(1), p, rep) =~= Seq::<u8>::empty());
            assert(spec_replace2(a, p, rep) == seq![a[0]] + spec_replace2(a.skip(1), p, rep));
            assert(spec_replace2(a, p, rep) =~= seq![a[0]]);
            assert(spec_replace2(ab, p, rep)
                =~= spec_replace2(a, p, rep) + spec_replace2(b, p, rep));
        }
    } else {
        assert(ab[0] == a[0] && ab[1] == a[1]);
        if a[0] == 32 && a[1] == p {
            assert(ab.skip(2) =~= a.skip(2) + b);
            if a.len() > 2 {
                assert(a.skip(2).last() == a.last());
            }
            lemma_replace2_concat(a.skip(2), b, p, rep);
            assert(spec_replace2(ab, p, rep)
                =~= spec_replace2(a, p, rep) + spec_replace2(b, p, rep));
        } else {
            assert(ab.skip(1) =~= a.skip(1) + b);
            assert(a.skip(1).last() == a.last());
            lemma_replace2_concat(a.skip(1), b, p, rep);
            assert(spec_replace2(ab, p, rep)
                =~= spec_replace2(a, p, rep) + spec_replace2(b, p, rep));
        }
    }
}

pub proof fn lemma_replace2_ws_id(w: Seq<u8>, p: u8, rep: Seq<u8>)
    requires
        all_ws(w),
        !is_ws(p),
    ensures
        spec_replace2(w, p, rep) == w,
    decreases w.len(),
{
    if w.len() >= 1 {
        assert(!(w.len() >= 2 && w[0] == 32 && w[1] == p));
        lemma_replace2_ws_id(w.skip(1), p, rep);
        assert(seq![w[0]] + w.skip(1) =~= w);
    }
}

pub proof fn lemma_tokens_ws_prefix(w: Seq<u8>, v: Seq<u8>)
    requires
        all_ws(w),
    ensures
        spec_tokens(w + v) == spec_tokens(v),
    decreases w.len(),
{
    if w.len() == 0 {
        assert(w + v =~= v);
    } else {
        assert((w + v).skip(1) =~= w.skip(1) + v);
        lemma_tokens_ws_prefix(w.skip(1), v);
    }
}

proof fn lemma_token_len_chars(s: Seq<u8>)
    ensures
        forall|t: int| 0 <= t < token_len(s) ==> !is_ws(#[trigger] s[t]),
    decreases s.len(),
{
    if !(s.len() == 0 || is_ws(s[0])) {
        lemma_token_len_chars(s.skip(1));
        lemma_token_len_le(s);
        assert forall|t: int| 0 <= t < token_len(s) implies !is_ws(#[trigger] s[t]) by {
            if t > 0 {
                assert(s.skip(1)[t - 1] == s[t]);
            }
        };
    }
}

proof fn lemma_token_len_stop(s: Seq<u8>)
    ensures
        token_len(s) == s.len() || is_ws(s[token_len(s) as int]),
    decreases s.len(),
{
    lemma_token_len_le(s);
    if !(s.len() == 0 || is_ws(s[0])) {
        lemma_token_len_stop(s.skip(1));
    }
}

pub proof fn lemma_tokens_ws_suffix(v: Seq<u8>, w: Seq<u8>)
    requires
        all_ws(w),
    ensures
        spec_tokens(v + w) == spec_tokens(v),
    decreases v.len(),
{
    if v.len() == 0 {
        assert(v + w =~= w);
        assert(w + Seq::<u8>::empty() =~= w);
        lemma_tokens_ws_prefix(w, Seq::empty());
    } else if is_ws(v[0]) {
        assert((v + w).skip(1) =~= v.skip(1) + w);
        lemma_tokens_ws_suffix(v.skip(1), w);
    } else {
        let tl = token_len(v) as int;
        lemma_token_len_le(v);
        lemma_token_len_chars(v);
        lemma_token_len_stop(v);
        assert forall|t: int| 0 <= t < tl implies !is_ws(#[trigger] (v + w)[t]) by {
            assert((v + w)[t] == v[t]);
        };
        if tl < v.len() {
            assert((v + w)[tl] == v[tl]);
            lemma_token_len_at(v + w, tl);
        } else {
            if w.len() == 0 {
                lemma_token_len_at(v + w, tl);
            } else {
                assert((v + w)[tl] == w[0]);
                lemma_token_len_at(v + w, tl);
            }
        }
        assert((v + w).take(tl) =~= v.take(tl));
        assert((v + w).skip(tl) =~= v.skip(tl) + w);
        lemma_tokens_ws_suffix(v.skip(tl), w);
    }
}

/// Length of the leading whitespace run.
pub open spec fn ws_prefix_len(s: Seq<u8>) -> nat
    decreases s.len(),
{
    if s.len() > 0 && is_ws(s[0]) { 1 + ws_prefix_len(s.skip(1)) } else { 0 }
}

/// Length of the trailing whitespace run.
pub open spec fn ws_suffix_len(s: Seq<u8>) -> nat
    decreases s.len(),
{
    if s.len() > 0 && is_ws(s.last()) { 1 + ws_suffix_len(s.drop_last()) } else { 0 }
}

pub proof fn lemma_trim_front_shape(s: Seq<u8>)
    ensures
        ws_prefix_len(s) <= s.len(),
        trim_front(s) == s.skip(ws_prefix_len(s) as int),
        forall|t: int| 0 <= t < ws_prefix_len(s) ==> is_ws(#[trigger] s[t]),
        ws_prefix_len(s) < s.len() ==> !is_ws(s[ws_prefix_len(s) as int]),
    decreases s.len(),
{
    if s.len() > 0 && is_ws(s[0]) {
        lemma_trim_front_shape(s.skip(1));
        assert(s.skip(1).skip(ws_prefix_len(s.skip(1)) as int)
            =~= s.skip(ws_prefix_len(s) as int));
        assert forall|t: int| 0 <= t < ws_prefix_len(s) implies is_ws(#[trigger] s[t]) by {
            if t > 0 {
                assert(s.skip(1)[t - 1] == s[t]);
            }
        };
        if ws_prefix_len(s) < s.len() {
            assert(s.skip(1)[ws_prefix_len(s.skip(1)) as int]
                == s[ws_prefix_len(s) as int]);
        }
    } else {
        assert(s.skip(0) =~= s);
    }
}

pub proof fn lemma_trim_back_shape(s: Seq<u8>)
    ensures
        ws_suffix_len(s) <= s.len(),
        trim_back(s) == s.take(s.len() - ws_suffix_len(s)),
        forall|t: int| s.len() - ws_suffix_len(s) <= t < s.len() ==> is_ws(#[trigger] s[t]),
        ws_suffix_len(s) < s.len() ==> !is_ws(s[s.len() - ws_suffix_len(s) - 1]),
    decreases s.len(),
{
    if s.len() > 0 && is_ws(s.last()) {
        lemma_trim_back_shape(s.drop_last());
        assert(s.drop_last().take(s.drop_last().len() - ws_suffix_len(s.drop_last()))
            =~= s.take(s.len() - ws_suffix_len(s)));
        assert forall|t: int| s.len() - ws_suffix_len(s) <= t < s.len()
            implies is_ws(#[trigger] s[t]) by {
            if t < s.len() - 1 {
                assert(s.drop_last()[t] == s[t]);
            }
        };
        if ws_suffix_len(s) < s.len() {
            assert(s.drop_last()[s.drop_last().len() - ws_suffix_len(s.drop_last()) - 1]
                == s[s.len() - ws_suffix_len(s) - 1]);
        }
    } else {
        assert(s.take(s.len() as int) =~= s);
    }
}

proof fn lemma_token_len_ge(s: Seq<u8>, k: int)
    requires
        0 <= k <= s.len(),
        forall|t: int| 0 <= t < k ==> !is_ws(#[trigger] s[t]),
    ensures
        token_len(s) >= k,
    decreases k,
{
    if k > 0 {
        lemma_token_len_ge(s.skip(1), k - 1);
    }
}

/// When a line is whitespace followed by at least `k` non-whitespace
/// bytes, its first token begins with exactly those bytes.
pub proof fn lemma_first_token_starts(w: Seq<u8>, body: Seq<u8>, k: int)
    requires
        all_ws(w),
        1 <= k <= body.len(),
        forall|t: int| 0 <= t < k ==> !is_ws(#[trigger] body[t]),
    ensures
        spec_tokens(w + body).len() > 0,
        spec_tokens(w + body)[0].len() >= k,
        forall|t: int| 0 <= t < k ==> #[trigger] spec_tokens(w + body)[0][t] == body[t],
{
    lemma_tokens_ws_prefix(w, body);
    lemma_token_len_ge(body, k);
    lemma_token_len_le(body);
    assert(!is_ws(body[0]));
    let tl = token_len(body) as int;
    assert(spec_tokens(body) == seq![body.take(tl)] + spec_tokens(body.skip(tl)));
    assert(spec_tokens(body)[0] == body.take(tl));
    assert(forall|t: int| 0 <= t < k ==> #[trigger] body.take(tl)[t] == body[t]);
}


/// Integer tokens hold only a sign and digits, never a semicolon.
pub proof fn lemma_int_token_no_semi(t: Seq<u8>)
    requires
        spec_parse_i32(t) is Some,
    ensures
        no_semi(t),
{
    let has_sign = t.len() >= 1 && (t[0] == 43 || t[0] == 45);
    let ds = if has_sign { t.skip(1) } else { t };
    assert forall|i: int| 0 <= i < t.len() implies #[trigger] t[i] != 59 by {
        if has_sign && i == 0 {
        } else if has_sign {
            assert(ds[i - 1] == t[i]);
            assert(is_digit(ds[i - 1]));
        } else {
            assert(is_digit(ds[i]));
        }
    };
}

/// Boolean tokens are exactly `true` or `false`, never a semicolon.
pub proof fn lemma_bool_token_no_semi(t: Seq<u8>)
    requires
        spec_parse_bool(t) is Some,
    ensures
        no_semi(t),
{
}

/// Lowercasing maps no byte to or from a semicolon.
pub proof fn lemma_lower_preserves_semi(s: Seq<u8>)
    requires
        no_semi(spec_lower(s)),
    ensures
        no_semi(s),
{
    assert forall|i: int| 0 <= i < s.len() implies #[trigger] s[i] != 59 by {
        assert(spec_lower(s)[i] == lower_byte(s[i]));
    };
}

/// The shorthand substitution keeps every byte of its input (possibly with
/// insertions), so a semicolon-free result came from a semicolon-free line.
pub proof fn lemma_replace2_preserves_semi(s: Seq<u8>, p: u8, rep: Seq<u8>)
    requires
        p != 59,
        no_semi(spec_replace2(s, p, rep)),
    ensures
        no_semi(s),
    decreases s.len(),
{
    let out = spec_replace2(s, p, rep);
    if s.len() >= 2 && s[0] == 32 && s[1] == p {
        let rec = spec_replace2(s.skip(2), p, rep);
        assert forall|i: int| 0 <= i < rec.len() implies #[trigger] rec[i] != 59 by {
            assert(out[rep.len() + i] == rec[i]);
        };
        lemma_replace2_preserves_semi(s.skip(2), p, rep);
        assert forall|i: int| 0 <= i < s.len() implies #[trigger] s[i] != 59 by {
            if i >= 2 {
                assert(s.skip(2)[i - 2] == s[i]);
            }
        };
    } else if s.len() >= 1 {
        let rec = spec_replace2(s.skip(1), p, rep);
        assert(out[0] == s[0]);
        assert forall|i: int| 0 <= i < rec.len() implies #[trigger] rec[i] != 59 by {
            assert(out[1 + i] == rec[i]);
        };
        lemma_replace2_preserves_semi(s.skip(1), p, rep);
        assert forall|i: int| 0 <= i < s.len() implies #[trigger] s[i] != 59 by {
            if i >= 1 {
                assert(s.skip(1)[i - 1] == s[i]);
            }
        };
    }
}

/// The tokens cover every non-whitespace byte: a line whose tokens are all
/// semicolon-free is semicolon-free itself.
pub proof fn lemma_tokens_cover_semi(u: Seq<u8>)
    requires
        forall|k: int| 0 <= k < spec_tokens(u).len() ==> no_semi(#[trigger] spec_tokens(u)[k]),
    ensures
        no_semi(u),
    decreases u.len(),
{
    if u.len() == 0 {
    } else if is_ws(u[0]) {
        assert(spec_tokens(u.skip(1)) == spec_tokens(u));
        assert forall|k: int| 0 <= k < spec_tokens(u.skip(1)).len()
            implies no_semi(#[trigger] spec_tokens(u.skip(1))[k]) by {
            assert(spec_tokens(u.skip(1))[k] == spec_tokens(u)[k]);
        };
        lemma_tokens_cover_semi(u.skip(1));
        assert forall|i: int| 0 <= i < u.len() implies #[trigger] u[i] != 59 by {
            if i >= 1 {
                assert(u.skip(1)[i - 1] == u[i]);
            }
        };
    } else {
        let tl = token_len(u) as int;
        lemma_token_len_le(u);
        let toks = spec_tokens(u);
        assert(toks[0] == u.take(tl));
        assert forall|k: int| 0 <= k < spec_tokens(u.skip(tl)).len()
            implies no_semi(#[trigger] spec_tokens(u.skip(tl))[k]) by {
            assert(toks[k + 1] == spec_tokens(u.skip(tl))[k]);
        };
        lemma_tokens_cover_semi(u.skip(tl));
        assert(no_semi(u.take(tl)));
        assert forall|i: int| 0 <= i < u.len() implies #[trigger] u[i] != 59 by {
            if i < tl {
                assert(u.take(tl)[i] == u[i]);
            } else {
                assert(u.skip(tl)[i - tl] == u[i]);
            }
        };
    }
}


} // verus!
