use vstd::prelude::*;
use vstd::string::StrSliceExecFns;

verus! {

/// The fixed charset that every drop glyph is drawn from: alphanumerics,
/// symbols, and a block of katakana glyphs.
pub open spec fn charset() -> Seq<char> {
    "abcdefghijklmnopqrstuvwxyzABCDEFGHIJKLMNOPQRSTUVWXYZ0123456789@#$%^&*()_+-=[]{}|;:,.<>?アイウエオカキクケコサシスセソタチツテトナニヌネノハヒフヘホマミムメモヤユヨラリルレロワヲン"@
}

/// The charset as an executable string slice.
fn charset_str() -> (s: &'static str)
    ensures
        s@ == charset(),
{
    "abcdefghijklmnopqrstuvwxyzABCDEFGHIJKLMNOPQRSTUVWXYZ0123456789@#$%^&*()_+-=[]{}|;:,.<>?アイウエオカキクケコサシスセソタチツテトナニヌネノハヒフヘホマミムメモヤユヨラリルレロワヲン"
}

/// The charset holds 133 glyphs.
pub proof fn lemma_charset_len()
    ensures
        charset().len() == 133,
{
    reveal_strlit(
        "abcdefghijklmnopqrstuvwxyzABCDEFGHIJKLMNOPQRSTUVWXYZ0123456789@#$%^&*()_+-=[]{}|;:,.<>?アイウエオカキクケコサシスセソタチツテトナニヌネノハヒフヘホマミムメモヤユヨラリルレロワヲン",
    );
}

/// The number of glyphs in the charset.
pub fn charset_len() -> (n: usize)
    ensures
        n == charset().len(),
{
    charset_str().unicode_len()
}

/// The glyph at position `i` of the charset.
pub fn charset_char(i: usize) -> (c: char)
    requires
        i < charset().len(),
    ensures
        c == charset()[i as int],
        charset().contains(c),
{
    let c = charset_str().get_char(i);
    proof {
        assert(charset()[i as int] == c);
    }
    c
}

/// Whether `c` is one of the charset glyphs.
pub fn is_charset_glyph(c: char) -> (r: bool)
    ensures
        r == charset().contains(c),
{
    let s = charset_str();
    let n = s.unicode_len();
    let mut k: usize = 0;
    while k < n
        invariant
            n == charset().len(),
            s@ == charset(),
            k <= n,
            forall|t: int| 0 <= t < k ==> charset()[t] != c,
        decreases n - k,
    {
        if s.get_char(k) == c {
            proof {
                assert(charset()[k as int] == c);
            }
            return true;
        }
        k += 1;
    }
    proof {
        assert(forall|t: int| 0 <= t < charset().len() ==> charset()[t] != c);
    }
    false
}

} // verus!
