//! Character-level text helpers: Unicode white space, ASCII case folding,
//! trimming, and hexadecimal / decimal digits.
use vstd::prelude::*;
use vstd::string::StrSliceExecFns;

verus! {

/// `char::is_whitespace`: the Unicode `White_Space` property.
pub open spec fn is_ws(c: char) -> bool {
    let u = c as u32;
    ||| 0x9 <= u <= 0xD
    ||| u == 0x20
    ||| u == 0x85
    ||| u == 0xA0
    ||| u == 0x1680
    ||| 0x2000 <= u <= 0x200A
    ||| u == 0x2028
    ||| u == 0x2029
    ||| u == 0x202F
    ||| u == 0x205F
    ||| u == 0x3000
}

/// Whether `c` is Unicode white space.
pub fn is_whitespace(c: char) -> (r: bool)
    ensures
        r == is_ws(c),
{
    let u = c as u32;
    (0x9 <= u && u <= 0xD) || u == 0x20 || u == 0x85 || u == 0xA0 || u == 0x1680 || (0x2000 <= u
        && u <= 0x200A) || u == 0x2028 || u == 0x2029 || u == 0x202F || u == 0x205F || u == 0x3000
}

/// `s` without its leading white space.
pub open spec fn trim_start(s: Seq<char>) -> Seq<char>
    decreases s.len(),
{
    if s.len() > 0 && is_ws(s[0]) {
        trim_start(s.drop_first())
    } else {
        s
    }
}

/// `s` without its trailing white space.
pub open spec fn trim_end(s: Seq<char>) -> Seq<char>
    decreases s.len(),
{
    if s.len() > 0 && is_ws(s.last()) {
        trim_end(s.drop_last())
    } else {
        s
    }
}

/// `str::trim`: `s` without leading and trailing white space.
pub open spec fn trim(s: Seq<char>) -> Seq<char> {
    trim_end(trim_start(s))
}

/// ASCII upper-case letters to lower case; every other character unchanged.
pub open spec fn ascii_lower(c: char) -> char {
    if 'A' <= c <= 'Z' {
        ((c as u32) + 32) as char
    } else {
        c
    }
}

/// `to_ascii_lowercase` of a whole sequence.
pub open spec fn lower(s: Seq<char>) -> Seq<char> {
    s.map_values(|c: char| ascii_lower(c))
}

/// An ASCII hexadecimal digit (either case).
pub open spec fn is_hex(c: char) -> bool {
    ('0' <= c <= '9') || ('a' <= c <= 'f') || ('A' <= c <= 'F')
}

/// Value of an ASCII hexadecimal digit.
pub open spec fn hex_val(c: char) -> u8 {
    if '0' <= c <= '9' {
        (c as u32 - '0' as u32) as u8
    } else if 'a' <= c <= 'f' {
        (c as u32 - 'a' as u32 + 10) as u8
    } else {
        (c as u32 - 'A' as u32 + 10) as u8
    }
}

/// Lower-case hexadecimal digit for `n < 16`.
pub open spec fn hex_char(n: u8) -> char {
    if n < 10 {
        ((n + 48) as u32) as char
    } else {
        ((n + 87) as u32) as char
    }
}

/// Two lower-case hex digits per byte, high nibble first (`{:02x}`).
pub open spec fn hex_bytes(b: Seq<u8>) -> Seq<char>
    decreases b.len(),
{
    if b.len() == 0 {
        Seq::empty()
    } else {
        hex_bytes(b.drop_last()).push(hex_char(b.last() / 16)).push(hex_char(b.last() % 16))
    }
}

/// Lower-case hexadecimal of `n` without leading zeros (`{:x}`).
pub open spec fn hex_u128(n: u128) -> Seq<char>
    decreases n,
{
    if n < 16 {
        seq![hex_char(n as u8)]
    } else {
        hex_u128(n / 16).push(hex_char((n % 16) as u8))
    }
}

/// Decimal digits of `n` without leading zeros, as ASCII bytes.
pub open spec fn dec_bytes(n: nat) -> Seq<u8>
    decreases n,
{
    if n < 10 {
        seq![(n + 48) as u8]
    } else {
        dec_bytes(n / 10).push((n % 10 + 48) as u8)
    }
}

/// Appends `c` to `s`.
#[verifier::external_body]
pub(crate) fn push_char(s: &mut String, c: char)
    ensures
        final(s)@ == old(s)@.push(c),
{
    s.push(c)
}

/// The characters of `s`.
pub fn chars_of(s: &str) -> (r: Vec<char>)
    ensures
        r@ == s@,
{
    let n = s.unicode_len();
    let mut r: Vec<char> = Vec::new();
    let mut i: usize = 0;
    while i < n
        invariant
            i <= n,
            n == s@.len(),
            r@ == s@.take(i as int),
        decreases n - i,
    {
        r.push(s.get_char(i));
        i = i + 1;
        assert(r@ =~= s@.take(i as int));
    }
    assert(s@.take(n as int) =~= s@);
    r
}

/// A string holding exactly the characters `cs`.
pub fn string_of(cs: &Vec<char>) -> (r: String)
    ensures
        r@ == cs@,
{
    let mut r = String::new();
    let mut i: usize = 0;
    while i < cs.len()
        invariant
            i <= cs.len(),
            r@ == cs@.take(i as int),
        decreases cs.len() - i,
    {
        push_char(&mut r, cs[i]);
        i = i + 1;
        assert(r@ =~= cs@.take(i as int));
    }
    assert(cs@.take(cs.len() as int) =~= cs@);
    r
}

proof fn lemma_trim_start_skip(s: Seq<char>, i: int)
    requires
        0 <= i <= s.len(),
        forall|j: int| 0 <= j < i ==> is_ws(s[j]),
    ensures
        trim_start(s) == trim_start(s.subrange(i, s.len() as int)),
    decreases i,
{
    if i > 0 {
        assert(s.drop_first().subrange(i - 1, s.drop_first().len() as int) =~= s.subrange(
            i,
            s.len() as int,
        ));
        lemma_trim_start_skip(s.drop_first(), i - 1);
    } else {
        assert(s.subrange(0, s.len() as int) =~= s);
    }
}

proof fn lemma_trim_end_cut(s: Seq<char>, j: int)
    requires
        0 <= j <= s.len(),
        forall|k: int| j <= k < s.len() ==> is_ws(s[k]),
    ensures
        trim_end(s) == trim_end(s.subrange(0, j)),
    decreases s.len() - j,
{
    if j < s.len() {
        assert(s.drop_last().subrange(0, j) =~= s.subrange(0, j));
        lemma_trim_end_cut(s.drop_last(), j);
    } else {
        assert(s.subrange(0, j) =~= s);
    }
}

/// The bounds of `cs` without leading and trailing white space.
fn trim_bounds(cs: &Vec<char>) -> (r: (usize, usize))
    ensures
        r.0 <= r.1 <= cs@.len(),
        trim(cs@) == cs@.subrange(r.0 as int, r.1 as int),
{
    let ghost s = cs@;
    let n = cs.len();
    let mut i: usize = 0;
    while i < n && is_whitespace(cs[i])
        invariant
            i <= n,
            n == s.len(),
            s == cs@,
            forall|j: int| 0 <= j < i ==> is_ws(s[j]),
        decreases n - i,
    {
        i = i + 1;
    }
    proof {
        lemma_trim_start_skip(s, i as int);
        let t = s.subrange(i as int, n as int);
        if t.len() > 0 {
            assert(t[0] == s[i as int]);
        }
        assert(trim_start(s) == t);
    }
    let ghost t = s.subrange(i as int, n as int);
    let mut j: usize = n;
    while j > i && is_whitespace(cs[j - 1])
        invariant
            i <= j <= n,
            n == s.len(),
            s == cs@,
            t == s.subrange(i as int, n as int),
            forall|k: int| j <= k < n ==> is_ws(s[k]),
        decreases j - i,
    {
        j = j - 1;
    }
    proof {
        let jj = j - i;
        assert forall|k: int| jj <= k < t.len() implies is_ws(t[k]) by {
            assert(t[k] == s[k + i]);
        }
        lemma_trim_end_cut(t, jj as int);
        let u = t.subrange(0, jj as int);
        assert(u =~= s.subrange(i as int, j as int));
        if u.len() > 0 {
            assert(u.last() == s[j - 1]);
        }
        assert(trim_end(u) == u);
    }
    (i, j)
}

/// `cs` without leading and trailing white space (`str::trim`).
pub fn trim_chars(cs: &Vec<char>) -> (r: Vec<char>)
    ensures
        r@ == trim(cs@),
{
    let (i, j) = trim_bounds(cs);
    let mut r: Vec<char> = Vec::new();
    let mut k: usize = i;
    while k < j
        invariant
            i <= k <= j <= cs@.len(),
            r@ == cs@.subrange(i as int, k as int),
        decreases j - k,
    {
        r.push(cs[k]);
        k = k + 1;
        assert(r@ =~= cs@.subrange(i as int, k as int));
    }
    r
}

/// `cs` without leading and trailing white space, lower-cased in ASCII
/// (`s.trim().to_ascii_lowercase()`).
pub fn trim_lower(cs: &Vec<char>) -> (r: Vec<char>)
    ensures
        r@ == lower(trim(cs@)),
{
    let ghost s = cs@;
    let n = cs.len();
    let (i, j) = trim_bounds(cs);
    let mut r: Vec<char> = Vec::new();
    let mut k: usize = i;
    while k < j
        invariant
            i <= k <= j <= n,
            n == s.len(),
            s == cs@,
            r@ == lower(s.subrange(i as int, k as int)),
        decreases j - k,
    {
        let c = cs[k];
        let lc = if 'A' <= c && c <= 'Z' {
            char_from_u32(c as u32 + 32)
        } else {
            c
        };
        r.push(lc);
        k = k + 1;
        assert(r@ =~= lower(s.subrange(i as int, k as int)));
    }
    r
}

fn char_from_u32(u: u32) -> (c: char)
    requires
        0x61 <= u <= 0x7A,
    ensures
        c == u as char,
{
    let b = u as u8;
    b as char
}

/// Lower-case hex digit for `n < 16`.
pub fn hex_digit(n: u8) -> (c: char)
    requires
        n < 16,
    ensures
        c == hex_char(n),
{
    if n < 10 {
        (n + 48) as char
    } else {
        (n + 87) as char
    }
}

/// Value of hex digit `c`.
pub fn hex_value(c: char) -> (r: u8)
    requires
        is_hex(c),
    ensures
        r == hex_val(c),
        r < 16,
{
    if '0' <= c && c <= '9' {
        (c as u32 - '0' as u32) as u8
    } else if 'a' <= c && c <= 'f' {
        (c as u32 - 'a' as u32 + 10) as u8
    } else {
        (c as u32 - 'A' as u32 + 10) as u8
    }
}

/// Appends the lower-case hex of each byte of `b` (two digits per byte).
pub fn push_hex_bytes(s: &mut String, b: &[u8])
    ensures
        final(s)@ == old(s)@ + hex_bytes(b@),
{
    let ghost s0 = s@;
    let mut i: usize = 0;
    while i < b.len()
        invariant
            i <= b.len(),
            s@ == s0 + hex_bytes(b@.take(i as int)),
        decreases b.len() - i,
    {
        let x = b[i];
        push_char(s, hex_digit(x / 16));
        push_char(s, hex_digit(x % 16));
        proof {
            let p = b@.take(i + 1);
            assert(p.drop_last() =~= b@.take(i as int));
            assert(p.last() == x);
        }
        i = i + 1;
        assert(s@ =~= s0 + hex_bytes(b@.take(i as int)));
    }
    assert(b@.take(b.len() as int) =~= b@);
}

/// Lower-case hexadecimal of `n` (`format!("{:x}", n)`).
pub fn hex_of_u128(n: u128) -> (r: String)
    ensures
        r@ == hex_u128(n),
    decreases n,
{
    if n < 16 {
        let mut s = String::new();
        push_char(&mut s, hex_digit(n as u8));
        assert(s@ =~= hex_u128(n));
        s
    } else {
        let mut s = hex_of_u128(n / 16);
        push_char(&mut s, hex_digit((n % 16) as u8));
        s
    }
}

/// Decimal ASCII digits of `n` (`n.to_string().as_bytes()`).
pub fn dec_of(n: usize) -> (r: Vec<u8>)
    ensures
        r@ == dec_bytes(n as nat),
    decreases n,
{
    if n < 10 {
        let mut v: Vec<u8> = Vec::new();
        v.push((n + 48) as u8);
        assert(v@ =~= dec_bytes(n as nat));
        v
    } else {
        let mut v = dec_of(n / 10);
        v.push((n % 10 + 48) as u8);
        v
    }
}


/// Two hex digits per byte.
pub proof fn lemma_hex_bytes_len(b: Seq<u8>)
    ensures
        hex_bytes(b).len() == 2 * b.len(),
    decreases b.len(),
{
    if b.len() > 0 {
        lemma_hex_bytes_len(b.drop_last());
    }
}

} // verus!
