use vstd::prelude::*;

verus! {

/// Number of characters in a canonical postal code.
pub const ZIPCODE_LENGTH: usize = 5;

/// Ways in which a supplied postal code can be malformed.
#[derive(Clone, Copy, Debug, PartialEq, Eq, Structural)]
pub enum Error {
    /// Fewer than five characters remain after trimming.
    InvalidFormat,
    /// One of the first five characters is not a decimal digit.
    InvalidCharacters,
}

impl Error {
    /// A human-readable description of the error.
    pub fn message(&self) -> (r: String) {
        match self {
            Error::InvalidFormat => String::from_str(
                "Invalid format, zipcode must be of the format: \"#####\" or \"#####-####\"",
            ),
            Error::InvalidCharacters => String::from_str(
                "Invalid characters, zipcode may only contain digits and \"-\".",
            ),
        }
    }
}

/// Characters with the Unicode White_Space property.
pub open spec fn is_white_space(c: char) -> bool {
    ('\u{9}' <= c && c <= '\u{d}') || c == ' ' || c == '\u{85}' || c == '\u{a0}'
        || c == '\u{1680}' || ('\u{2000}' <= c && c <= '\u{200a}') || c == '\u{2028}'
        || c == '\u{2029}' || c == '\u{202f}' || c == '\u{205f}' || c == '\u{3000}'
}

/// `s` without its leading white space.
pub open spec fn trim_start(s: Seq<char>) -> Seq<char>
    decreases s.len(),
{
    if s.len() > 0 && is_white_space(s[0]) {
        trim_start(s.drop_first())
    } else {
        s
    }
}

/// `s` without its trailing white space.
pub open spec fn trim_end(s: Seq<char>) -> Seq<char>
    decreases s.len(),
{
    if s.len() > 0 && is_white_space(s.last()) {
        trim_end(s.drop_last())
    } else {
        s
    }
}

/// `s` without surrounding white space.
pub open spec fn trimmed(s: Seq<char>) -> Seq<char> {
    trim_end(trim_start(s))
}

pub open spec fn is_digit(c: char) -> bool {
    '0' <= c && c <= '9'
}

/// The canonical five-digit code of `s`, or the reason it has none.
pub open spec fn canonical_code(s: Seq<char>) -> Result<Seq<char>, Error> {
    let t = trimmed(s);
    if t.len() < ZIPCODE_LENGTH {
        Err(Error::InvalidFormat)
    } else if exists|i: int| 0 <= i < ZIPCODE_LENGTH && !is_digit(#[trigger] t[i]) {
        Err(Error::InvalidCharacters)
    } else {
        Ok(t.subrange(0, ZIPCODE_LENGTH as int))
    }
}

/// The characters of a validation result.
pub open spec fn code_view(r: Result<String, Error>) -> Result<Seq<char>, Error> {
    match r {
        Ok(s) => Ok(s@),
        Err(e) => Err(e),
    }
}

/// Relies on str::trim: removes leading and trailing characters that have
/// the White_Space property, and nothing else.
#[verifier::external_body]
fn trim_white_space<'a>(s: &'a str) -> (r: &'a str)
    ensures
        r@ == trimmed(s@),
{
    s.trim()
}

/// Validates a postal code and returns its canonical form: the first five
/// characters of the trimmed input, which must all be decimal digits.
/// Whatever follows them ("-1234", " 1234", or anything else) is ignored.
pub fn clean_zipcode(zipcode: &str) -> (r: Result<String, Error>)
    ensures
        code_view(r) == canonical_code(zipcode@),
{
    let t = trim_white_space(zipcode);
    let n = t.unicode_len();
    if n < ZIPCODE_LENGTH {
        return Err(Error::InvalidFormat);
    }
    let mut i: usize = 0;
    while i < ZIPCODE_LENGTH
        invariant
            i <= ZIPCODE_LENGTH <= t@.len(),
            t@ == trimmed(zipcode@),
            forall|j: int| 0 <= j < i ==> is_digit(#[trigger] t@[j]),
        decreases ZIPCODE_LENGTH - i,
    {
        let c = t.get_char(i);
        if !('0' <= c && c <= '9') {
            return Err(Error::InvalidCharacters);
        }
        i = i + 1;
    }
    let head = t.substring_char(0, ZIPCODE_LENGTH);
    Ok(head.to_owned())
}

} // verus!
