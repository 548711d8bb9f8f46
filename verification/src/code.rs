//! Short codes: fixed-length identifiers over a case-sensitive alphanumeric
//! alphabet, and the generator that draws them at random.

use vstd::prelude::*;

verus! {

/// Number of characters in every short code.
pub const CODE_LEN: usize = 6;

/// Number of symbols in the code alphabet.
pub const ALPHABET_LEN: usize = 62;

/// Whether `c` belongs to the code alphabet: an ASCII digit or letter.
pub open spec fn is_code_char(c: char) -> bool {
    ('0' <= c && c <= '9') || ('a' <= c && c <= 'z') || ('A' <= c && c <= 'Z')
}

/// Whether `s` is a short code: exactly `CODE_LEN` alphabet characters.
pub open spec fn is_short_code(s: Seq<char>) -> bool {
    &&& s.len() == CODE_LEN
    &&& forall|i: int| 0 <= i < s.len() ==> is_code_char(#[trigger] s[i])
}

/// Executable test for membership in the code alphabet.
pub fn code_char(c: char) -> (b: bool)
    ensures
        b == is_code_char(c),
{
    ('0' <= c && c <= '9') || ('a' <= c && c <= 'z') || ('A' <= c && c <= 'Z')
}

/// The `i`-th symbol of the code alphabet: the digits, then the lower-case
/// letters, then the upper-case letters.
pub open spec fn alphabet_symbol(i: int) -> char {
    if i < 10 {
        (('0' as int) + i) as char
    } else if i < 36 {
        (('a' as int) + (i - 10)) as char
    } else {
        (('A' as int) + (i - 36)) as char
    }
}

/// The alphabet as a table, symbol by symbol.
pub fn alphabet() -> (table: [char; 62])
    ensures
        forall|i: int| 0 <= i < ALPHABET_LEN ==> #[trigger] table@[i] == alphabet_symbol(i),
{
    let table: [char; 62] = [
        '0', '1', '2', '3', '4', '5', '6', '7', '8', '9', 'a', 'b', 'c',
        'd', 'e', 'f', 'g', 'h', 'i', 'j', 'k', 'l', 'm', 'n', 'o', 'p',
        'q', 'r', 's', 't', 'u', 'v', 'w', 'x', 'y', 'z', 'A', 'B', 'C',
        'D', 'E', 'F', 'G', 'H', 'I', 'J', 'K', 'L', 'M', 'N', 'O', 'P',
        'Q', 'R', 'S', 'T', 'U', 'V', 'W', 'X', 'Y', 'Z',
    ];
    table
}

/// The alphabet holds every digit and letter, each at exactly one index, and
/// nothing else.
pub proof fn lemma_alphabet_is_exact(c: char)
    ensures
        is_code_char(c) <==> exists|i: int| 0 <= i < ALPHABET_LEN && #[trigger] alphabet_symbol(i) == c,
        forall|i: int, j: int|
            0 <= i < j < ALPHABET_LEN ==> alphabet_symbol(i) != alphabet_symbol(j),
{
    if is_code_char(c) {
        let k: int = if '0' <= c && c <= '9' {
            (c as int) - ('0' as int)
        } else if 'a' <= c && c <= 'z' {
            (c as int) - ('a' as int) + 10
        } else {
            (c as int) - ('A' as int) + 36
        };
        assert(alphabet_symbol(k) == c);
    }
}

/// Draws `size` symbols of `alphabet` at random through `nanoid::format`, with
/// nanoid's default random source.
///
/// Trusted: nanoid appends only symbols of the alphabet it was given and
/// returns once the text holds `size` bytes, which for ASCII symbols is `size`
/// characters. The inputs on which it panics or never returns (an empty or
/// oversized alphabet, size zero, a size whose eightfold overflows) are left
/// out. Which symbols are drawn is not stated, nor that they are drawn evenly:
/// two calls may differ. The random source is seeded from the operating
/// system, and nanoid panics where that fails.
#[verifier::external_body]
fn random_text(alphabet: &[char], size: usize) -> (text: String)
    requires
        0 < alphabet@.len() <= 255,
        forall|i: int| 0 <= i < alphabet@.len() ==> (#[trigger] alphabet@[i] as u32) < 128,
        0 < size <= usize::MAX / 8,
    ensures
        text@.len() == size,
        forall|i: int| 0 <= i < text@.len() ==> alphabet@.contains(#[trigger] text@[i]),
{
    nanoid::format(nanoid::rngs::default, alphabet, size)
}

/// A short code: the identifier of one mapping.
pub struct ShortCode {
    text: String,
}

impl View for ShortCode {
    type V = Seq<char>;

    closed spec fn view(&self) -> Seq<char> {
        self.text@
    }
}

impl ShortCode {
    #[verifier::type_invariant]
    spec fn well_formed(&self) -> bool {
        is_short_code(self.text@)
    }

    /// Draws a fresh code at random. Independent of any store: the caller
    /// decides what to do when the code is already taken.
    pub fn generate() -> (code: ShortCode)
        ensures
            is_short_code(code@),
    {
        let table = alphabet();
        let text = random_text(table.as_slice(), CODE_LEN);
        proof {
            assert forall|j: int| 0 <= j < text@.len() implies is_code_char(#[trigger] text@[j]) by {
                let c = text@[j];
                assert(table@.contains(c));
                let i = choose|i: int| 0 <= i < table@.len() && table@[i] == c;
                assert(alphabet_symbol(i) == c);
                lemma_alphabet_is_exact(c);
            }
        }
        ShortCode { text }
    }

    /// Reads a code from text: `Some` exactly when the text is a short code.
    pub fn parse(text: &str) -> (r: Option<ShortCode>)
        ensures
            r is Some <==> is_short_code(text@),
            r matches Some(code) ==> code@ == text@,
    {
        let n = text.unicode_len();
        if n != CODE_LEN {
            return None;
        }
        let mut i: usize = 0;
        while i < n
            invariant
                n == text@.len(),
                i <= n,
                forall|j: int| 0 <= j < i ==> is_code_char(#[trigger] text@[j]),
            decreases n - i,
        {
            if !code_char(text.get_char(i)) {
                return None;
            }
            i += 1;
        }
        Some(ShortCode { text: text.to_owned() })
    }

    /// The code as text.
    pub fn as_str(&self) -> (s: &str)
        ensures
            s@ == self@,
            is_short_code(self@),
    {
        proof {
            use_type_invariant(self);
        }
        self.text.as_str()
    }

    /// Whether this code reads `text`.
    pub fn reads(&self, text: &String) -> (b: bool)
        ensures
            b == (self@ == text@),
    {
        self.text == *text
    }

    /// Whether this code and `other` are the same code.
    pub fn same_as(&self, other: &ShortCode) -> (b: bool)
        ensures
            b == (self@ == other@),
    {
        self.text == other.text
    }

    /// A second handle on the same code.
    pub fn duplicate(&self) -> (twin: ShortCode)
        ensures
            twin@ == self@,
    {
        proof {
            use_type_invariant(self);
        }
        ShortCode { text: self.text.clone() }
    }
}

} // verus!
