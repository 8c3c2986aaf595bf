use vstd::prelude::*;

use pelite::pe64::Pe;

verus! {

/// Whether `pelite::pattern::parse` accepts the pattern text.
pub uninterp spec fn spec_pattern_parses(pattern: Seq<char>) -> bool;

/// Whether the bytes pass the header checks of `PeView::from_bytes` (DOS and
/// NT signatures, PE32+ magic, the bounds of the headers, data directory and
/// section table), all of which read the bytes alone.
pub uninterp spec fn spec_pe_headers_valid(image: Seq<u8>) -> bool;

/// What `Scanner::finds_code` leaves in a save array that held `save`, when
/// the pattern has exactly one match in the code range of the mapped image;
/// `None` when it has no match or more than one.
pub uninterp spec fn spec_code_saves(image: Seq<u8>, pattern: Seq<char>, save: Seq<u32>) -> Option<Seq<u32>>;

/// How often `c` occurs in `s`.
pub open spec fn char_count(s: Seq<char>, c: char) -> nat
    decreases s.len(),
{
    if s.len() == 0 {
        0
    } else {
        char_count(s.drop_last(), c) + if s.last() == c {
            1nat
        } else {
            0nat
        }
    }
}

/// A pattern text that pelite can parse and run without overflowing: at most
/// 512 characters (the scanner runs nested and repeated atoms recursively),
/// fewer than 256 `{` (the parser counts nesting in a `u8`) and no alignment
/// operator `@` (the scanner shifts a `u32` by its operand, up to 35).
pub open spec fn pattern_text_safe(p: Seq<char>) -> bool {
    p.len() <= 512 && char_count(p, '{') < 256 && !p.contains('@')
}

/// The little-endian 32-bit value at `at`.
pub open spec fn le_u32(b: Seq<u8>, at: int) -> int {
    b[at] + b[at + 1] * 256 + b[at + 2] * 65536 + b[at + 3] * 16777216
}

/// The offset of the PE32+ optional header: after the NT signature and the
/// file header, at the offset that the DOS header gives.
pub open spec fn optional_header_at(image: Seq<u8>) -> int {
    le_u32(image, 60) + 24
}

/// An image whose code range the scanner can slice: at most 0xFFFF_0000
/// bytes, and, where the headers are there to read, a code range
/// (`BaseOfCode` .. `BaseOfCode + SizeOfCode`, wrapping at 2^32) that starts
/// inside the image and not after its own end.
pub open spec fn scan_safe_image(image: Seq<u8>) -> bool {
    &&& image.len() <= 0xFFFF_0000
    &&& image.len() >= 64 && le_u32(image, 60) + 48 <= image.len() ==> {
        let oh = optional_header_at(image);
        let size = le_u32(image, oh + 4);
        let base = le_u32(image, oh + 20);
        base <= image.len() && base <= (base + size) % 0x1_0000_0000
    }
}

/// Calls `pelite::pattern::parse` on the pattern text, then
/// `pelite::pe64::PeView::from_bytes` on the image, then `Scanner::finds_code`
/// on the view's scanner with the parsed atoms, and reports which of them
/// refused. Claimed:
/// - the pattern error comes exactly for the texts the parser refuses;
/// - the image error comes whenever the headers fail pelite's checks; pelite
///   also refuses bytes that pass them but do not start on a 4-byte boundary
///   in memory, which is not stated;
/// - otherwise the scan reports whether the pattern has exactly one match in
///   the code range, and after a match `save` holds what the match stored,
///   both functions of the image bytes, the pattern text and what `save` held
///   before. After a miss `save` holds scratch values, which are not stated.
/// Required: a text the parser and scanner run without overflow (see
/// `pattern_text_safe`) and a code range the scanner can slice.
#[verifier::external_body]
fn finds_code(image: &[u8], pattern: &str, save: &mut [u32; 2]) -> (r: Result<bool, ScanError>)
    requires
        pattern_text_safe(pattern@),
        scan_safe_image(image@),
    ensures
        (r is Err && r->Err_0 == ScanError::BadPattern) <==> !spec_pattern_parses(pattern@),
        r is Err ==> r->Err_0 == ScanError::BadPattern || r->Err_0 == ScanError::BadImage,
        spec_pattern_parses(pattern@) && !(image@.len() >= 64 && spec_pe_headers_valid(image@))
            ==> r is Err && r->Err_0 == ScanError::BadImage,
        r is Ok ==> image@.len() >= 64 && spec_pe_headers_valid(image@) && r->Ok_0 == spec_code_saves(
            image@,
            pattern@,
            old(save)@,
        ) is Some,
        r is Ok && r->Ok_0 ==> spec_code_saves(image@, pattern@, old(save)@) == Some(final(save)@),
{
    let atoms = match pelite::pattern::parse(pattern) {
        Ok(a) => a,
        Err(_) => return Err(ScanError::BadPattern),
    };
    let view = match pelite::pe64::PeView::from_bytes(image) {
        Ok(v) => v,
        Err(_) => return Err(ScanError::BadImage),
    };
    Ok(view.scanner().finds_code(&atoms, save))
}

/// Why a code pattern could not be searched for.
#[derive(Clone, Copy, Debug, PartialEq, Eq, Structural)]
pub enum ScanError {
    /// The pattern text uses what the scanner cannot run safely: the
    /// alignment operator `@`, or 256 or more `{`.
    Unsupported,
    /// The pattern text is not a valid pattern.
    BadPattern,
    /// The bytes are not a mapped 64-bit PE image.
    BadImage,
}

/// What is wrong with a pattern text, checked in this order, if anything.
pub open spec fn pattern_error(p: Seq<char>) -> Option<ScanError> {
    if !pattern_text_safe(p) {
        Some(ScanError::Unsupported)
    } else if !spec_pattern_parses(p) {
        Some(ScanError::BadPattern)
    } else {
        None
    }
}

/// The headers of the image pass pelite's checks.
pub open spec fn headers_ok(image: Seq<u8>) -> bool {
    image.len() >= 64 && spec_pe_headers_valid(image)
}

/// The first capture of the unique match of `pattern` in the code of
/// `image`, searched with a save array of two zeros; `None` when the pattern
/// has no unique match.
pub open spec fn code_capture(image: Seq<u8>, pattern: Seq<char>) -> Option<u32> {
    match spec_code_saves(image, pattern, seq![0u32, 0u32]) {
        Some(s) => Some(s[1]),
        None => None,
    }
}

/// What [`scan_code`] gives back: the pattern's error when it has one; the
/// image error when the headers fail pelite's checks; otherwise the capture
/// of the unique match (`None` without one), or the image error when pelite
/// refuses the bytes for where they lie in memory.
pub open spec fn scan_result(image: Seq<u8>, pattern: Seq<char>, r: Result<Option<u32>, ScanError>) -> bool {
    match pattern_error(pattern) {
        Some(e) => r == Err::<Option<u32>, ScanError>(e),
        None => if !headers_ok(image) {
            r == Err::<Option<u32>, ScanError>(ScanError::BadImage)
        } else {
            r == Err::<Option<u32>, ScanError>(ScanError::BadImage) || r == Ok::<Option<u32>, ScanError>(
                code_capture(image, pattern),
            )
        },
    }
}

/// Whether the pattern text is one that pelite can parse and run safely.
pub fn pattern_supported(pattern: &str) -> (b: bool)
    ensures
        b == pattern_text_safe(pattern@),
{
    let n = pattern.unicode_len();
    if n > 512 {
        return false;
    }
    let mut braces: usize = 0;
    let mut i: usize = 0;
    while i < n
        invariant
            n == pattern@.len(),
            i <= n,
            braces == char_count(pattern@.take(i as int), '{'),
            braces <= i,
            !pattern@.take(i as int).contains('@'),
        decreases n - i,
    {
        let c = pattern.get_char(i);
        proof {
            let t = pattern@.take(i + 1);
            assert(t.drop_last() =~= pattern@.take(i as int));
            assert(t.last() == c);
        }
        if c == '@' {
            proof {
                assert(pattern@[i as int] == '@');
            }
            return false;
        }
        if c == '{' {
            braces = braces + 1;
        }
        proof {
            let t = pattern@.take(i + 1);
            assert forall|k: int| 0 <= k < t.len() implies t[k] != '@' by {
                if k < i {
                    assert(t[k] == pattern@.take(i as int)[k]);
                }
            }
        }
        i = i + 1;
    }
    proof {
        assert(pattern@.take(n as int) =~= pattern@);
    }
    braces < 256
}

/// The little-endian 32-bit value at `at`.
fn read_le_u32(b: &[u8], at: usize) -> (v: u32)
    requires
        at + 4 <= b@.len(),
    ensures
        v == le_u32(b@, at as int),
{
    (b[at] as u32) + (b[at + 1] as u32) * 256 + (b[at + 2] as u32) * 65536 + (b[at + 3] as u32)
        * 16777216
}

/// Whether the scanner can slice the code range of the image (see
/// [`scan_safe_image`]).
pub fn code_range_in_bounds(image: &[u8]) -> (b: bool)
    ensures
        b == scan_safe_image(image@),
{
    let n = image.len();
    if n > 0xFFFF_0000 {
        return false;
    }
    if n < 64 {
        return true;
    }
    let lfanew = read_le_u32(image, 60) as usize;
    if lfanew > n || n - lfanew < 48 {
        return true;
    }
    let oh = lfanew + 24;
    let size = read_le_u32(image, oh + 4) as u64;
    let base = read_le_u32(image, oh + 20) as u64;
    base <= n as u64 && base <= (base + size) % 0x1_0000_0000
}

/// Searches the code of a mapped 64-bit PE image for the unique match of a
/// pattern and returns the first capture (the address the pattern refers to,
/// as an offset from the image base), or `None` when there is no unique match.
pub fn scan_code(image: &[u8], pattern: &str) -> (r: Result<Option<u32>, ScanError>)
    requires
        scan_safe_image(image@),
    ensures
        scan_result(image@, pattern@, r),
{
    if !pattern_supported(pattern) {
        return Err(ScanError::Unsupported);
    }
    let mut save: [u32; 2] = [0, 0];
    proof {
        assert(save@ =~= seq![0u32, 0u32]);
    }
    match finds_code(image, pattern, &mut save) {
        Ok(true) => Ok(Some(save[1])),
        Ok(false) => Ok(None),
        Err(e) => Err(e),
    }
}

/// The address of a location given as an offset from a module's base.
pub fn module_address(base: u64, rva: u32) -> (a: u64)
    requires
        base + rva <= u64::MAX,
    ensures
        a == base + rva,
{
    base + rva as u64
}

} // verus!
