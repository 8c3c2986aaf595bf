use vstd::prelude::*;

verus! {

// ---------------------------------------------------------------------------
// Number formatting
// ---------------------------------------------------------------------------

/// The digits used for upper-case hexadecimal output.
pub open spec fn hex_digit_table() -> Seq<char> {
    "0123456789ABCDEF"@
}

/// The digits used for decimal output.
pub open spec fn dec_digit_table() -> Seq<char> {
    "0123456789"@
}

/// Upper-case hexadecimal digits of `n`, most significant first, without
/// leading zeros (`0` is written as a single digit).
pub open spec fn hex_digits(n: nat) -> Seq<char>
    decreases n,
{
    if n < 16 {
        seq![hex_digit_table()[n as int]]
    } else {
        hex_digits(n / 16).push(hex_digit_table()[(n % 16) as int])
    }
}

/// Decimal digits of `n`, most significant first, without leading zeros.
pub open spec fn dec_digits(n: nat) -> Seq<char>
    decreases n,
{
    if n < 10 {
        seq![dec_digit_table()[n as int]]
    } else {
        dec_digits(n / 10).push(dec_digit_table()[(n % 10) as int])
    }
}

/// The alternate upper-case hexadecimal form of `n`: `0x` followed by the digits.
pub open spec fn hex_text(n: nat) -> Seq<char> {
    "0x"@ + hex_digits(n)
}

/// The alternate hexadecimal form of a 32-bit signed integer.
pub open spec fn hex_i32(x: int) -> Seq<char> {
    hex_text(i32_bits(x))
}

/// The bit pattern of a 32-bit signed integer read as unsigned, which is what
/// hexadecimal formatting of a signed integer prints.
pub open spec fn i32_bits(x: int) -> nat {
    if x >= 0 {
        x as nat
    } else {
        (x + 0x1_0000_0000) as nat
    }
}

/// The bit pattern of a 64-bit signed integer read as unsigned.
pub open spec fn i64_bits(x: int) -> nat {
    if x >= 0 {
        x as nat
    } else {
        (x + 0x1_0000_0000_0000_0000) as nat
    }
}

/// Appends the hexadecimal digits of `n` to `out`.
pub fn append_hex_digits(out: &mut String, n: u64)
    ensures
        final(out)@ == old(out)@ + hex_digits(n as nat),
    decreases n,
{
    let table = "0123456789ABCDEF";
    proof {
        reveal_strlit("0123456789ABCDEF");
    }
    if n >= 16 {
        append_hex_digits(out, n / 16);
    }
    let d = (n % 16) as usize;
    out.append(table.substring_char(d, d + 1));
    proof {
        assert(table@.subrange(d as int, d + 1) =~= seq![hex_digit_table()[d as int]]);
    }
}

/// Appends the decimal digits of `n` to `out`.
pub fn append_dec_digits(out: &mut String, n: u64)
    ensures
        final(out)@ == old(out)@ + dec_digits(n as nat),
    decreases n,
{
    let table = "0123456789";
    proof {
        reveal_strlit("0123456789");
    }
    if n >= 10 {
        append_dec_digits(out, n / 10);
    }
    let d = (n % 10) as usize;
    out.append(table.substring_char(d, d + 1));
    proof {
        assert(table@.subrange(d as int, d + 1) =~= seq![dec_digit_table()[d as int]]);
    }
}

/// Appends `0x` and the upper-case hexadecimal digits of `n`.
pub fn append_hex(out: &mut String, n: u64)
    ensures
        final(out)@ == old(out)@ + hex_text(n as nat),
{
    out.append("0x");
    append_hex_digits(out, n);
    proof {
        assert(final(out)@ =~= old(out)@ + hex_text(n as nat));
    }
}

/// Appends the alternate hexadecimal form of a 32-bit signed integer.
pub fn append_hex_i32(out: &mut String, x: i32)
    ensures
        final(out)@ == old(out)@ + hex_text(i32_bits(x as int)),
{
    let bits: u64 = if x >= 0 {
        x as u64
    } else {
        (x as i64 + 0x1_0000_0000i64) as u64
    };
    append_hex(out, bits);
}

/// Appends the alternate hexadecimal form of a 64-bit signed integer.
pub fn append_hex_i64(out: &mut String, x: i64)
    ensures
        final(out)@ == old(out)@ + hex_text(i64_bits(x as int)),
{
    let bits: u64 = if x >= 0 {
        x as u64
    } else {
        let up: i128 = x as i128 + 0x1_0000_0000_0000_0000i128;
        up as u64
    };
    append_hex(out, bits);
}

/// Appends the decimal form of `n`.
pub fn append_dec(out: &mut String, n: usize)
    ensures
        final(out)@ == old(out)@ + dec_digits(n as nat),
{
    append_dec_digits(out, n as u64);
}

// ---------------------------------------------------------------------------
// Character level helpers
// ---------------------------------------------------------------------------

/// Copies the characters of a string into a vector.
pub fn chars_of(s: &str) -> (v: Vec<char>)
    ensures
        v@ == s@,
{
    let n = s.unicode_len();
    let mut v: Vec<char> = Vec::new();
    let mut i: usize = 0;
    while i < n
        invariant
            n == s@.len(),
            i <= n,
            v@ == s@.take(i as int),
        decreases n - i,
    {
        let c = s.get_char(i);
        v.push(c);
        i = i + 1;
        proof {
            assert(v@ =~= s@.take(i as int));
        }
    }
    proof {
        assert(s@.take(n as int) =~= s@);
    }
    v
}

/// Whether two strings hold the same characters.
pub fn text_eq(a: &str, b: &str) -> (r: bool)
    ensures
        r == (a@ == b@),
{
    let av = chars_of(a);
    let bv = chars_of(b);
    if av.len() != bv.len() {
        return false;
    }
    let mut i: usize = 0;
    while i < av.len()
        invariant
            av@ == a@,
            bv@ == b@,
            av@.len() == bv@.len(),
            i <= av@.len(),
            forall|j: int| 0 <= j < i ==> av@[j] == bv@[j],
        decreases av@.len() - i,
    {
        if av[i] != bv[i] {
            return false;
        }
        i = i + 1;
    }
    proof {
        assert(a@ =~= b@);
    }
    true
}

/// `s` with every occurrence of `c` replaced by `rep`.
pub open spec fn replace_char(s: Seq<char>, c: char, rep: Seq<char>) -> Seq<char>
    decreases s.len(),
{
    if s.len() == 0 {
        Seq::empty()
    } else {
        replace_char(s.drop_last(), c, rep) + (if s.last() == c {
            rep
        } else {
            seq![s.last()]
        })
    }
}

/// Returns `s` with every occurrence of `c` replaced by `rep`.
pub fn replace_char_text(s: &str, c: char, rep: &str) -> (r: String)
    ensures
        r@ == replace_char(s@, c, rep@),
{
    let n = s.unicode_len();
    let mut r = String::new();
    let mut i: usize = 0;
    while i < n
        invariant
            n == s@.len(),
            i <= n,
            r@ == replace_char(s@.take(i as int), c, rep@),
        decreases n - i,
    {
        let ch = s.get_char(i);
        if ch == c {
            r.append(rep);
        } else {
            r.append(s.substring_char(i, i + 1));
            proof {
                assert(s@.subrange(i as int, i + 1) =~= seq![ch]);
            }
        }
        proof {
            assert(s@.take(i + 1).drop_last() =~= s@.take(i as int));
        }
        i = i + 1;
    }
    proof {
        assert(s@.take(n as int) =~= s@);
    }
    r
}

/// Index of the first occurrence of `c` in `s`, or the length of `s`.
pub open spec fn first_index_of(s: Seq<char>, c: char) -> nat
    decreases s.len(),
{
    if s.len() == 0 {
        0
    } else if s[0] == c {
        0
    } else {
        1 + first_index_of(s.drop_first(), c)
    }
}

/// The part of `s` before the first occurrence of `c` (all of `s` when `c` does
/// not occur): the first piece of a split on `c`.
pub open spec fn before_char(s: Seq<char>, c: char) -> Seq<char> {
    s.take(first_index_of(s, c) as int)
}

proof fn lemma_first_index_of_char(s: Seq<char>, c: char, k: int)
    requires
        0 <= k <= s.len(),
        forall|j: int| 0 <= j < k ==> s[j] != c,
        k < s.len() ==> s[k] == c,
    ensures
        first_index_of(s, c) == k,
    decreases s.len(),
{
    if s.len() > 0 && k > 0 {
        assert forall|j: int| 0 <= j < k - 1 implies s.drop_first()[j] != c by {
            assert(s.drop_first()[j] == s[j + 1]);
        }
        lemma_first_index_of_char(s.drop_first(), c, k - 1);
    }
}

/// Returns the part of `s` before the first occurrence of `c`.
pub fn before_char_text(s: &str, c: char) -> (r: String)
    ensures
        r@ == before_char(s@, c),
{
    let n = s.unicode_len();
    let mut i: usize = 0;
    while i < n
        invariant
            n == s@.len(),
            i <= n,
            forall|j: int| 0 <= j < i ==> s@[j] != c,
        ensures
            i < n ==> s@[i as int] == c,
        decreases n - i,
    {
        if s.get_char(i) == c {
            break;
        }
        i = i + 1;
    }
    proof {
        lemma_first_index_of_char(s@, c, i as int);
    }
    String::from_str(s.substring_char(0, i))
}

/// Whether `s` begins with `p`.
pub open spec fn starts_with(s: Seq<char>, p: Seq<char>) -> bool {
    p.len() <= s.len() && s.take(p.len() as int) == p
}

/// Whether `s` begins with `p`.
pub fn starts_with_text(s: &str, p: &str) -> (r: bool)
    ensures
        r == starts_with(s@, p@),
{
    let sv = chars_of(s);
    let pv = chars_of(p);
    if pv.len() > sv.len() {
        return false;
    }
    let mut i: usize = 0;
    while i < pv.len()
        invariant
            sv@ == s@,
            pv@ == p@,
            pv@.len() <= sv@.len(),
            i <= pv@.len(),
            forall|j: int| 0 <= j < i ==> sv@[j] == pv@[j],
        decreases pv@.len() - i,
    {
        if sv[i] != pv[i] {
            proof {
                assert(s@.take(p@.len() as int)[i as int] != p@[i as int]);
            }
            return false;
        }
        i = i + 1;
    }
    proof {
        assert(s@.take(p@.len() as int) =~= p@);
    }
    true
}

/// Whether `c` is white space in the sense of the Unicode `White_Space`
/// property.
pub open spec fn is_white_space(c: char) -> bool {
    let u = c as u32;
    ||| 0x09 <= u <= 0x0D
    ||| u == 0x20
    ||| u == 0x85
    ||| u == 0xA0
    ||| u == 0x1680
    ||| 0x2000 <= u <= 0x200A
    ||| u == 0x2028
    ||| u == 0x2029
    ||| u == 0x202F
    ||| u == 0x205F
    ||| u == 0x3000
}

/// Whether `c` is white space (Unicode `White_Space`).
pub fn white_space(c: char) -> (r: bool)
    ensures
        r == is_white_space(c),
{
    let u = c as u32;
    (0x09 <= u && u <= 0x0D) || u == 0x20 || u == 0x85 || u == 0xA0 || u == 0x1680 || (0x2000
        <= u && u <= 0x200A) || u == 0x2028 || u == 0x2029 || u == 0x202F || u == 0x205F || u
        == 0x3000
}

/// `s` without its leading white space.
pub open spec fn trim_start(s: Seq<char>) -> Seq<char>
    decreases s.len(),
{
    if s.len() > 0 && is_white_space(s[0]) {
        trim_start(s.drop_first())
    } else {
        s
    }
}

/// `s` without its trailing white space.
pub open spec fn trim_end(s: Seq<char>) -> Seq<char>
    decreases s.len(),
{
    if s.len() > 0 && is_white_space(s.last()) {
        trim_end(s.drop_last())
    } else {
        s
    }
}

/// `s` without leading and trailing white space.
pub open spec fn trim(s: Seq<char>) -> Seq<char> {
    trim_end(trim_start(s))
}

proof fn lemma_trim_start_skip(s: Seq<char>, k: int)
    requires
        0 <= k <= s.len(),
        forall|j: int| 0 <= j < k ==> is_white_space(s[j]),
        k < s.len() ==> !is_white_space(s[k]),
    ensures
        trim_start(s) == s.skip(k),
    decreases s.len(),
{
    if k == 0 {
        assert(s.skip(0) =~= s);
    } else {
        assert forall|j: int| 0 <= j < k - 1 implies is_white_space(s.drop_first()[j]) by {
            assert(s.drop_first()[j] == s[j + 1]);
        }
        lemma_trim_start_skip(s.drop_first(), k - 1);
        assert(s.drop_first().skip(k - 1) =~= s.skip(k));
    }
}

proof fn lemma_trim_end_take(s: Seq<char>, k: int)
    requires
        0 <= k <= s.len(),
        forall|j: int| k <= j < s.len() ==> is_white_space(s[j]),
        k > 0 ==> !is_white_space(s[k - 1]),
    ensures
        trim_end(s) == s.take(k),
    decreases s.len(),
{
    if k == s.len() {
        assert(s.take(k) =~= s);
    } else {
        lemma_trim_end_take(s.drop_last(), k);
        assert(s.drop_last().take(k) =~= s.take(k));
    }
}

/// Trimming never makes a sequence longer.
pub proof fn lemma_trim_len(s: Seq<char>)
    ensures
        trim(s).len() <= s.len(),
{
    lemma_trim_start_len(s);
    lemma_trim_end_len(trim_start(s));
}

proof fn lemma_trim_start_len(s: Seq<char>)
    ensures
        trim_start(s).len() <= s.len(),
    decreases s.len(),
{
    if s.len() > 0 && is_white_space(s[0]) {
        lemma_trim_start_len(s.drop_first());
    }
}

proof fn lemma_trim_end_len(s: Seq<char>)
    ensures
        trim_end(s).len() <= s.len(),
    decreases s.len(),
{
    if s.len() > 0 && is_white_space(s.last()) {
        lemma_trim_end_len(s.drop_last());
    }
}

/// Whether `s` ends with the character `c`.
pub open spec fn ends_with_char(s: Seq<char>, c: char) -> bool {
    s.len() > 0 && s.last() == c
}

/// Whether `s` ends with the character `c`.
pub fn ends_with_char_text(s: &str, c: char) -> (r: bool)
    ensures
        r == ends_with_char(s@, c),
{
    let n = s.unicode_len();
    if n == 0 {
        false
    } else {
        s.get_char(n - 1) == c
    }
}

/// Returns `s` without leading and trailing white space.
pub fn trim_text(s: &str) -> (r: String)
    ensures
        r@ == trim(s@),
        r@.len() <= s@.len(),
{
    let n = s.unicode_len();
    let mut lo: usize = 0;
    while lo < n
        invariant
            n == s@.len(),
            lo <= n,
            forall|j: int| 0 <= j < lo ==> is_white_space(s@[j]),
        ensures
            lo < n ==> !is_white_space(s@[lo as int]),
        decreases n - lo,
    {
        if !white_space(s.get_char(lo)) {
            break;
        }
        lo = lo + 1;
    }
    proof {
        lemma_trim_start_skip(s@, lo as int);
    }
    let ghost t = s@.skip(lo as int);
    let mut hi: usize = n;
    while hi > lo
        invariant
            n == s@.len(),
            lo <= hi <= n,
            t == s@.skip(lo as int),
            forall|j: int| hi <= j < n ==> is_white_space(s@[j]),
        ensures
            hi > lo ==> !is_white_space(s@[hi - 1]),
        decreases hi,
    {
        if !white_space(s.get_char(hi - 1)) {
            break;
        }
        hi = hi - 1;
    }
    proof {
        assert forall|j: int| (hi - lo) <= j < t.len() implies is_white_space(t[j]) by {
            assert(t[j] == s@[j + lo]);
        }
        if hi > lo {
            assert(t[hi - lo - 1] == s@[hi - 1]);
        }
        lemma_trim_end_take(t, (hi - lo) as int);
        assert(t.take((hi - lo) as int) =~= s@.subrange(lo as int, hi as int));
    }
    String::from_str(s.substring_char(lo, hi))
}

} // verus!
