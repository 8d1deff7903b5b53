//! Byte-sequence helpers shared by the extractor, the renderers and the
//! listing formatter: ASCII whitespace trimming, byte searching and counting,
//! quote stripping, and decimal formatting.

use vstd::prelude::*;

verus! {

/// ASCII whitespace, as `u8::is_ascii_whitespace` defines it.
pub open spec fn is_ws(b: u8) -> bool {
    b == 32 || b == 9 || b == 10 || b == 12 || b == 13
}

pub open spec fn trim_start(s: Seq<u8>) -> Seq<u8>
    decreases s.len(),
{
    if s.len() > 0 && is_ws(s[0]) {
        trim_start(s.drop_first())
    } else {
        s
    }
}

pub open spec fn trim_end(s: Seq<u8>) -> Seq<u8>
    decreases s.len(),
{
    if s.len() > 0 && is_ws(s.last()) {
        trim_end(s.drop_last())
    } else {
        s
    }
}

/// Both ends trimmed of ASCII whitespace.
pub open spec fn trim(s: Seq<u8>) -> Seq<u8> {
    trim_end(trim_start(s))
}

pub proof fn lemma_trim_start_skip(s: Seq<u8>, i: int)
    requires
        0 <= i <= s.len(),
        forall|j: int| 0 <= j < i ==> is_ws(s[j]),
    ensures
        trim_start(s) == trim_start(s.skip(i)),
    decreases i,
{
    if i == 0 {
        assert(s.skip(0) =~= s);
    } else {
        assert(s.drop_first() =~= s.skip(1));
        lemma_trim_start_skip(s.skip(1), i - 1);
        assert(s.skip(1).skip(i - 1) =~= s.skip(i));
    }
}

pub proof fn lemma_trim_end_take(s: Seq<u8>, i: int)
    requires
        0 <= i <= s.len(),
        forall|j: int| i <= j < s.len() ==> is_ws(s[j]),
    ensures
        trim_end(s) == trim_end(s.take(i)),
    decreases s.len() - i,
{
    if i == s.len() {
        assert(s.take(i) =~= s);
    } else {
        assert(s.drop_last() =~= s.take(s.len() - 1));
        lemma_trim_end_take(s.take(s.len() - 1), i);
        assert(s.take(s.len() - 1).take(i) =~= s.take(i));
    }
}

pub proof fn lemma_trim_start_clean(s: Seq<u8>)
    requires
        s.len() == 0 || !is_ws(s[0]),
    ensures
        trim_start(s) == s,
{
}

pub proof fn lemma_trim_end_clean(s: Seq<u8>)
    requires
        s.len() == 0 || !is_ws(s.last()),
    ensures
        trim_end(s) == s,
{
}

/// How many times `b` occurs in `s`.
pub open spec fn count_byte(s: Seq<u8>, b: u8) -> nat
    decreases s.len(),
{
    if s.len() == 0 {
        0
    } else {
        (if s[0] == b {
            1nat
        } else {
            0nat
        }) + count_byte(s.drop_first(), b)
    }
}

pub open spec fn has_byte(s: Seq<u8>, b: u8) -> bool {
    count_byte(s, b) > 0
}

pub proof fn lemma_count_byte_take_step(s: Seq<u8>, b: u8, i: int)
    requires
        0 <= i < s.len(),
    ensures
        count_byte(s.take(i + 1), b) == count_byte(s.take(i), b) + (if s[i] == b {
            1int
        } else {
            0int
        }),
    decreases i,
{
    if i == 0 {
        assert(s.take(1).drop_first() =~= s.take(0));
    } else {
        assert(s.take(i + 1).drop_first() =~= s.drop_first().take(i));
        assert(s.take(i).drop_first() =~= s.drop_first().take(i - 1));
        lemma_count_byte_take_step(s.drop_first(), b, i - 1);
    }
}

pub proof fn lemma_count_byte_whole(s: Seq<u8>, b: u8)
    ensures
        count_byte(s.take(s.len() as int), b) == count_byte(s, b),
{
    assert(s.take(s.len() as int) =~= s);
}

/// `has_byte` agrees with the existence of an index holding `b`.
pub proof fn lemma_has_byte_exists(s: Seq<u8>, b: u8)
    ensures
        has_byte(s, b) <==> exists|i: int| 0 <= i < s.len() && s[i] == b,
    decreases s.len(),
{
    if s.len() > 0 {
        lemma_has_byte_exists(s.drop_first(), b);
        if s[0] == b {
            assert(has_byte(s, b));
        }
        if has_byte(s.drop_first(), b) {
            let i = choose|i: int| 0 <= i < s.drop_first().len() && s.drop_first()[i] == b;
            assert(s[i + 1] == b);
        }
        if exists|i: int| 0 <= i < s.len() && s[i] == b {
            let i = choose|i: int| 0 <= i < s.len() && s[i] == b;
            if i > 0 {
                assert(s.drop_first()[i - 1] == b);
            }
        }
    }
}

/// Index of the first occurrence of `b` in `s`, or -1 when absent.
pub open spec fn find_byte(s: Seq<u8>, b: u8) -> int
    decreases s.len(),
{
    if s.len() == 0 {
        -1
    } else if s[0] == b {
        0
    } else {
        let r = find_byte(s.drop_first(), b);
        if r < 0 {
            -1
        } else {
            r + 1
        }
    }
}

pub proof fn lemma_find_byte_properties(s: Seq<u8>, b: u8)
    ensures
        find_byte(s, b) == -1 ==> !has_byte(s, b),
        find_byte(s, b) >= 0 ==> {
            &&& find_byte(s, b) < s.len()
            &&& s[find_byte(s, b)] == b
            &&& forall|j: int| 0 <= j < find_byte(s, b) ==> s[j] != b
        },
    decreases s.len(),
{
    if s.len() > 0 && s[0] != b {
        lemma_find_byte_properties(s.drop_first(), b);
        let r = find_byte(s.drop_first(), b);
        if r >= 0 {
            assert(forall|j: int| 1 <= j < r + 1 ==> s[j] == s.drop_first()[j - 1]);
        }
    }
}

/// The first index holding `b` is exactly `find_byte`.
pub proof fn lemma_find_byte_at(s: Seq<u8>, b: u8, i: int)
    requires
        0 <= i < s.len(),
        s[i] == b,
        forall|j: int| 0 <= j < i ==> s[j] != b,
    ensures
        find_byte(s, b) == i,
    decreases s.len(),
{
    if i > 0 {
        assert(forall|j: int| 0 <= j < i - 1 ==> s.drop_first()[j] == s[j + 1]);
        lemma_find_byte_at(s.drop_first(), b, i - 1);
    }
}

/// One layer of surrounding double quotes removed, when present on both ends.
pub open spec fn strip_quotes(v: Seq<u8>) -> Seq<u8> {
    if v.len() >= 2 && v[0] == 34 && v[v.len() - 1] == 34 {
        v.subrange(1, v.len() - 1)
    } else {
        v
    }
}

/// The bytes of an ASCII character sequence.
pub open spec fn ascii_bytes(s: Seq<char>) -> Seq<u8> {
    Seq::new(s.len(), |i: int| s[i] as u8)
}

/// The copy of `v` between `start` and `end`.
pub fn sub_vec(v: &Vec<u8>, start: usize, end: usize) -> (r: Vec<u8>)
    requires
        start <= end <= v@.len(),
    ensures
        r@ == v@.subrange(start as int, end as int),
{
    let mut r: Vec<u8> = Vec::new();
    let mut j: usize = start;
    while j < end
        invariant
            start <= j <= end <= v@.len(),
            r@ == v@.subrange(start as int, j as int),
        decreases end - j,
    {
        r.push(v[j]);
        assert(v@.subrange(start as int, j + 1 as int) =~= v@.subrange(start as int, j as int).push(
            v@[j as int],
        ));
        j = j + 1;
    }
    r
}

/// Appends all of `part` to `out`.
pub fn push_all(out: &mut Vec<u8>, part: &Vec<u8>)
    ensures
        final(out)@ == old(out)@ + part@,
{
    let mut i: usize = 0;
    while i < part.len()
        invariant
            i <= part@.len(),
            out@ == old(out)@ + part@.take(i as int),
        decreases part@.len() - i,
    {
        out.push(part[i]);
        assert(part@.take(i + 1 as int) =~= part@.take(i as int).push(part@[i as int]));
        i = i + 1;
    }
    assert(part@.take(part@.len() as int) =~= part@);
}

/// Whether `b` is ASCII whitespace.
pub fn is_ws_byte(b: u8) -> (r: bool)
    ensures
        r == is_ws(b),
{
    b == 32 || b == 9 || b == 10 || b == 12 || b == 13
}

/// Both ends of `v` trimmed of ASCII whitespace.
pub fn trim_vec(v: &Vec<u8>) -> (r: Vec<u8>)
    ensures
        r@ == trim(v@),
{
    let mut start: usize = 0;
    while start < v.len() && is_ws_byte(v[start])
        invariant
            start <= v@.len(),
            forall|j: int| 0 <= j < start ==> is_ws(v@[j]),
        decreases v@.len() - start,
    {
        start = start + 1;
    }
    proof {
        lemma_trim_start_skip(v@, start as int);
        lemma_trim_start_clean(v@.skip(start as int));
    }
    // trim_start(v@) == v@.skip(start)
    let mut end: usize = v.len();
    while end > start && is_ws_byte(v[end - 1])
        invariant
            start <= end <= v@.len(),
            forall|j: int| end <= j < v@.len() ==> is_ws(v@[j]),
        decreases end,
    {
        end = end - 1;
    }
    proof {
        let t = v@.skip(start as int);
        assert(forall|j: int|
            end - start <= j < t.len() ==> t[j] == v@[j + start] && is_ws(t[j]));
        lemma_trim_end_take(t, end - start);
        assert(t.take(end - start) =~= v@.subrange(start as int, end as int));
        lemma_trim_end_clean(t.take(end - start));
    }
    sub_vec(v, start, end)
}

/// Finds the first occurrence of `b` in `v`.
pub fn find_byte_vec(v: &Vec<u8>, b: u8) -> (r: Option<usize>)
    ensures
        match r {
            Some(i) => find_byte(v@, b) == i,
            None => find_byte(v@, b) == -1,
        },
{
    let mut i: usize = 0;
    while i < v.len()
        invariant
            i <= v@.len(),
            forall|j: int| 0 <= j < i ==> v@[j] != b,
        decreases v@.len() - i,
    {
        if v[i] == b {
            proof {
                lemma_find_byte_at(v@, b, i as int);
            }
            return Some(i);
        }
        i = i + 1;
    }
    proof {
        lemma_find_byte_properties(v@, b);
    }
    None
}

/// Counts the occurrences of `b` in `v`.
pub fn count_byte_vec(v: &Vec<u8>, b: u8) -> (r: usize)
    ensures
        r == count_byte(v@, b),
{
    let mut c: usize = 0;
    let mut i: usize = 0;
    while i < v.len()
        invariant
            i <= v@.len(),
            c == count_byte(v@.take(i as int), b),
            c <= i,
        decreases v@.len() - i,
    {
        proof {
            lemma_count_byte_take_step(v@, b, i as int);
        }
        if v[i] == b {
            c = c + 1;
        }
        i = i + 1;
    }
    proof {
        lemma_count_byte_whole(v@, b);
    }
    c
}

/// A fresh copy of `v`.
pub fn copy_vec(v: &Vec<u8>) -> (r: Vec<u8>)
    ensures
        r@ == v@,
{
    let r = sub_vec(v, 0, v.len());
    proof {
        assert(v@.subrange(0, v@.len() as int) =~= v@);
    }
    r
}

/// One layer of surrounding double quotes removed, when present on both ends.
pub fn strip_quotes_vec(v: &Vec<u8>) -> (r: Vec<u8>)
    ensures
        r@ == strip_quotes(v@),
{
    if v.len() >= 2 && v[0] == 34 && v[v.len() - 1] == 34 {
        sub_vec(v, 1, v.len() - 1)
    } else {
        copy_vec(v)
    }
}

/// Whether `nee` occurs contiguously inside `hay`.
pub open spec fn is_substring(hay: Seq<u8>, nee: Seq<u8>) -> bool {
    exists|i: int|
        0 <= i && i + nee.len() <= hay.len() && #[trigger] hay.subrange(i, i + nee.len()) == nee
}

/// Substring search over bytes.
pub fn contains_sub(hay: &Vec<u8>, nee: &Vec<u8>) -> (r: bool)
    ensures
        r == is_substring(hay@, nee@),
{
    let n = nee.len();
    let h = hay.len();
    if n == 0 {
        proof {
            assert(hay@.subrange(0, 0 + nee@.len() as int) =~= nee@);
        }
        return true;
    }
    if n > h {
        return false;
    }
    let mut i: usize = 0;
    while i <= h - n
        invariant
            n == nee@.len(),
            h == hay@.len(),
            0 < n <= h,
            i <= h - n + 1,
            forall|k: int| 0 <= k < i ==> #[trigger] hay@.subrange(k, k + nee@.len()) != nee@,
        decreases h - i,
    {
        let mut j: usize = 0;
        let mut matched: bool = true;
        while j < n
            invariant
                n == nee@.len(),
                h == hay@.len(),
                0 < n <= h,
                i <= h - n,
                j <= n,
                matched ==> forall|t: int| 0 <= t < j ==> hay@[i + t] == nee@[t],
                !matched ==> hay@.subrange(i as int, i + nee@.len()) != nee@,
            decreases n - j,
        {
            if hay[i + j] != nee[j] {
                proof {
                    assert(hay@.subrange(i as int, i + nee@.len())[j as int] == hay@[i + j]);
                }
                matched = false;
                j = n;
            } else {
                j = j + 1;
            }
        }
        if matched {
            proof {
                assert(hay@.subrange(i as int, i + nee@.len()) =~= nee@);
            }
            return true;
        }
        i = i + 1;
    }
    proof {
        if is_substring(hay@, nee@) {
            let k = choose|k: int|
                0 <= k && k + nee@.len() <= hay@.len() && #[trigger] hay@.subrange(
                    k,
                    k + nee@.len(),
                ) == nee@;
            assert(k < i);
        }
    }
    false
}

/// Copies an ASCII string's characters as bytes.
pub fn ascii_to_vec(s: &str) -> (r: Vec<u8>)
    requires
        s.is_ascii(),
    ensures
        r@ == ascii_bytes(s@),
{
    broadcast use vstd::string::is_ascii_spec_bytes;

    let r = s.as_bytes_vec();
    proof {
        assert(r@ =~= ascii_bytes(s@));
    }
    r
}

/// Appends an ASCII string's bytes to `out`.
pub fn push_str_bytes(out: &mut Vec<u8>, s: &str)
    requires
        s.is_ascii(),
    ensures
        final(out)@ == old(out)@ + ascii_bytes(s@),
{
    let part = ascii_to_vec(s);
    push_all(out, &part);
}

/// The decimal representation of `n`, most significant digit first.
pub open spec fn dec_rep(n: nat) -> Seq<u8>
    decreases n,
{
    if n < 10 {
        seq![(48 + n) as u8]
    } else {
        dec_rep(n / 10).push((48 + n % 10) as u8)
    }
}

/// Formats `n` in decimal.
pub fn to_decimal(n: u64) -> (r: Vec<u8>)
    ensures
        r@ == dec_rep(n as nat),
    decreases n,
{
    if n < 10 {
        let mut r: Vec<u8> = Vec::new();
        r.push(48 + (n as u8));
        r
    } else {
        let mut r = to_decimal(n / 10);
        r.push(48 + ((n % 10) as u8));
        r
    }
}

} // verus!
