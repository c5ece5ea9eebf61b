//! Validated crate names, and the parsers that accept either a bare name or
//! a `<name>.png` file name.

use vstd::prelude::*;
use vstd::string::StrSliceExecFns;
use vstd::utf8::is_ascii_chars;

verus! {

/// A character allowed in a crate name: ASCII alphanumeric, `-` or `_`.
pub open spec fn is_name_char(c: char) -> bool {
    ||| 'a' <= c <= 'z'
    ||| 'A' <= c <= 'Z'
    ||| '0' <= c <= '9'
    ||| c == '-'
    ||| c == '_'
}

/// The reserved byte sequence `nul` occurs at position `i` of `s`.
pub open spec fn has_nul_at(s: Seq<char>, i: int) -> bool {
    &&& 0 <= i
    &&& i + 3 <= s.len()
    &&& s[i] == 'n'
    &&& s[i + 1] == 'u'
    &&& s[i + 2] == 'l'
}

/// The name contains the reserved sequence `nul` somewhere.
pub open spec fn contains_nul(s: Seq<char>) -> bool {
    exists|i: int| has_nul_at(s, i)
}

/// A valid crate name: non-empty, ASCII, at most `CrateName::MAX_LEN`
/// characters, drawn from the allowed character set, and free of the
/// reserved platform-special sequence `nul`.
pub open spec fn is_valid_crate_name(s: Seq<char>) -> bool {
    &&& s.len() > 0
    &&& is_ascii_chars(s)
    &&& s.len() <= CrateName::MAX_LEN
    &&& (forall|i: int| 0 <= i < s.len() ==> is_name_char(#[trigger] s[i]))
    &&& !contains_nul(s)
}

/// The message reported for an invalid name, following the order in which
/// the rules are checked: emptiness, ASCII-ness, length, character set,
/// reserved sequences.
pub open spec fn invalid_name_msg(s: Seq<char>) -> Seq<char> {
    if s.len() == 0 {
        "Crate names cannot be empty"@
    } else if !is_ascii_chars(s) {
        "Crate names must be ASCII"@
    } else if s.len() > CrateName::MAX_LEN {
        "Crate names can not be longer than 64 characters"@
    } else if !(forall|i: int| 0 <= i < s.len() ==> is_name_char(#[trigger] s[i])) {
        "Crate names must use only alphanumeric characters or `-` or `_`"@
    } else {
        "Crate names must not contain the reserved sequence `nul`"@
    }
}

/// A valid crate name.
#[derive(Clone, Debug, Hash, PartialEq, Eq)]
pub struct CrateName(String);

impl View for CrateName {
    type V = Seq<char>;

    closed spec fn view(&self) -> Seq<char> {
        self.0@
    }
}

impl DeepView for CrateName {
    type V = Seq<char>;

    open spec fn deep_view(&self) -> Seq<char> {
        self.view()
    }
}

/// Error caused by attempting to parse an invalid crate name as a
/// [`CrateName`]. Holds the reason as text.
#[derive(Debug, PartialEq, Eq)]
pub struct InvalidCrateName(String);

impl View for InvalidCrateName {
    type V = Seq<char>;

    closed spec fn view(&self) -> Seq<char> {
        self.0@
    }
}

impl InvalidCrateName {
    /// Wrap a reason in the error, as the failing half of a `Result`.
    pub fn err_with_msg<T>(msg: &str) -> (r: Result<T, InvalidCrateName>)
        ensures
            r is Err,
            r->Err_0@ == msg@,
    {
        Err(InvalidCrateName(msg.to_owned()))
    }

    /// The human-readable account of the failure.
    pub fn message(&self) -> (r: String)
        ensures
            r@ == "Invalid crate name: "@ + self@,
    {
        let mut r = "Invalid crate name: ".to_owned();
        r.append(self.0.as_str());
        r
    }
}

impl CrateName {
    /// Greatest number of characters in a valid crate name.
    pub const MAX_LEN: usize = 64;

    /// Validate `name` and wrap it as a [`CrateName`].
    ///
    /// Accepts exactly the names satisfying [`is_valid_crate_name`]; any
    /// other input is rejected with the message for the first rule it
    /// breaks.
    pub fn from_str(name: &str) -> (r: Result<CrateName, InvalidCrateName>)
        ensures
            r is Ok <==> is_valid_crate_name(name@),
            r is Ok ==> r->Ok_0@ == name@,
            r is Err ==> r->Err_0@ == invalid_name_msg(name@),
    {
        if name.is_empty() {
            return InvalidCrateName::err_with_msg("Crate names cannot be empty");
        }
        if !name.is_ascii() {
            return InvalidCrateName::err_with_msg("Crate names must be ASCII");
        }
        let n = name.unicode_len();
        if n > Self::MAX_LEN {
            return InvalidCrateName::err_with_msg(
                "Crate names can not be longer than 64 characters",
            );
        }
        let mut i: usize = 0;
        while i < n
            invariant
                n == name@.len(),
                is_ascii_chars(name@),
                n <= CrateName::MAX_LEN,
                i <= n,
                forall|j: int| 0 <= j < i ==> is_name_char(#[trigger] name@[j]),
            decreases n - i,
        {
            let b: u8 = name.get_ascii(i);
            let ok = (b >= 97 && b <= 122) || (b >= 65 && b <= 90) || (b >= 48 && b <= 57)
                || b == 45 || b == 95;
            if !ok {
                proof {
                    let c = name@[i as int];
                    assert(c as u32 <= 127);
                    assert(!is_name_char(c));
                }
                return InvalidCrateName::err_with_msg(
                    "Crate names must use only alphanumeric characters or `-` or `_`",
                );
            }
            proof {
                let c = name@[i as int];
                assert(c as u32 <= 127);
                assert(is_name_char(c));
            }
            i = i + 1;
        }
        let mut k: usize = 0;
        while k + 2 < n
            invariant
                n == name@.len(),
                is_ascii_chars(name@),
                n <= CrateName::MAX_LEN,
                n > 0,
                k <= n,
                forall|j: int| 0 <= j < n ==> is_name_char(#[trigger] name@[j]),
                forall|j: int| 0 <= j < k ==> !has_nul_at(name@, j),
            decreases n - k,
        {
            let b0: u8 = name.get_ascii(k);
            let b1: u8 = name.get_ascii(k + 1);
            let b2: u8 = name.get_ascii(k + 2);
            if b0 == 110 && b1 == 117 && b2 == 108 {
                assert(has_nul_at(name@, k as int));
                return InvalidCrateName::err_with_msg(
                    "Crate names must not contain the reserved sequence `nul`",
                );
            }
            proof {
                assert(!has_nul_at(name@, k as int));
            }
            k = k + 1;
        }
        proof {
            assert(forall|j: int| j >= k ==> !has_nul_at(name@, j));
            assert(!contains_nul(name@));
        }
        Ok(CrateName(name.to_owned()))
    }

    /// Borrow the underlying string.
    pub fn inner(&self) -> (r: &String)
        ensures
            r@ == self@,
    {
        &self.0
    }

    /// Take the underlying string.
    pub fn into_inner(self) -> (r: String)
        ensures
            r@ == self@,
    {
        self.0
    }
}

/// The string ends in the four characters `.png`.
pub open spec fn ends_with_png(s: Seq<char>) -> bool {
    &&& s.len() >= 4
    &&& s[s.len() - 4] == '.'
    &&& s[s.len() - 3] == 'p'
    &&& s[s.len() - 2] == 'n'
    &&& s[s.len() - 1] == 'g'
}

/// The string with its trailing `.png` removed.
pub open spec fn png_base(s: Seq<char>) -> Seq<char> {
    s.take(s.len() - 4)
}

/// A crate name given as the file name of its rendered image,
/// `<name>.png`.
#[derive(Debug)]
pub struct CratePngFile(CrateName);

impl View for CratePngFile {
    type V = Seq<char>;

    closed spec fn view(&self) -> Seq<char> {
        self.0@
    }
}

/// Why a string failed to parse as a [`CratePngFile`].
#[derive(Debug)]
pub enum ParseCratePngFileError {
    /// The string does not end in `.png`.
    NotAPng,
    /// The part before `.png` is not a valid crate name.
    InvalidCrateName(InvalidCrateName),
}

impl ParseCratePngFileError {
    /// The human-readable account of the failure.
    pub fn message(&self) -> (r: String)
        ensures
            (match self {
                ParseCratePngFileError::NotAPng => r@ == "Name does not end in `.png`"@,
                ParseCratePngFileError::InvalidCrateName(e) => r@ == "Invalid crate name: "@
                    + "Invalid crate name: "@ + e@,
            }),
    {
        match self {
            ParseCratePngFileError::NotAPng => "Name does not end in `.png`".to_owned(),
            ParseCratePngFileError::InvalidCrateName(e) => {
                let mut r = "Invalid crate name: ".to_owned();
                let inner = e.message();
                r.append(inner.as_str());
                r
            },
        }
    }
}

impl CratePngFile {
    /// Parse `<name>.png`: strip the suffix, then validate the base as a
    /// crate name.
    pub fn from_str(value: &str) -> (r: Result<CratePngFile, ParseCratePngFileError>)
        ensures
            !ends_with_png(value@) ==> r matches Err(ParseCratePngFileError::NotAPng),
            ends_with_png(value@) && is_valid_crate_name(png_base(value@)) ==> r is Ok
                && r->Ok_0@ == png_base(value@),
            ends_with_png(value@) && !is_valid_crate_name(png_base(value@)) ==> (r matches Err(
                ParseCratePngFileError::InvalidCrateName(e),
            ) && e@ == invalid_name_msg(png_base(value@))),
    {
        let n = value.unicode_len();
        if n < 4 {
            return Err(ParseCratePngFileError::NotAPng);
        }
        if !(value.get_char(n - 4) == '.' && value.get_char(n - 3) == 'p' && value.get_char(
            n - 2,
        ) == 'n' && value.get_char(n - 1) == 'g') {
            return Err(ParseCratePngFileError::NotAPng);
        }
        let base = value.substring_char(0, n - 4);
        match CrateName::from_str(base) {
            Ok(name) => Ok(CratePngFile(name)),
            Err(e) => Err(ParseCratePngFileError::InvalidCrateName(e)),
        }
    }

    /// Take the crate name the file name stands for.
    pub fn into_crate_name(self) -> (r: CrateName)
        ensures
            r@ == self@,
    {
        self.0
    }
}

/// An identifier as the single read path of server mode takes it: a bare
/// crate name, or one with a `.png` suffix that is accepted and stripped.
#[derive(Debug)]
pub enum CrateNameOrPngFile {
    PngFile(CratePngFile),
    CrateName(CrateName),
}

impl CrateNameOrPngFile {
    /// The crate name this identifier stands for.
    pub open spec fn spec_name(&self) -> Seq<char> {
        match self {
            CrateNameOrPngFile::PngFile(f) => f@,
            CrateNameOrPngFile::CrateName(n) => n@,
        }
    }

    /// Parse an identifier, trying `<name>.png` first and falling back to
    /// a bare name when the `.png` suffix is absent.
    pub fn from_str(value: &str) -> (r: Result<CrateNameOrPngFile, ParseCratePngFileError>)
        ensures
            ends_with_png(value@) && is_valid_crate_name(png_base(value@)) ==> (r matches Ok(
                CrateNameOrPngFile::PngFile(f),
            ) && f@ == png_base(value@)),
            ends_with_png(value@) && !is_valid_crate_name(png_base(value@)) ==> (r matches Err(
                ParseCratePngFileError::InvalidCrateName(e),
            ) && e@ == invalid_name_msg(png_base(value@))),
            !ends_with_png(value@) && is_valid_crate_name(value@) ==> (r matches Ok(
                CrateNameOrPngFile::CrateName(n),
            ) && n@ == value@),
            !ends_with_png(value@) && !is_valid_crate_name(value@) ==> (r matches Err(
                ParseCratePngFileError::InvalidCrateName(e),
            ) && e@ == invalid_name_msg(value@)),
    {
        match CratePngFile::from_str(value) {
            Ok(f) => Ok(CrateNameOrPngFile::PngFile(f)),
            Err(ParseCratePngFileError::NotAPng) => {
                match CrateName::from_str(value) {
                    Ok(n) => Ok(CrateNameOrPngFile::CrateName(n)),
                    Err(e) => Err(ParseCratePngFileError::InvalidCrateName(e)),
                }
            },
            Err(e) => Err(e),
        }
    }

    /// Take the crate name, whichever shape it came in.
    pub fn into_crate_name(self) -> (r: CrateName)
        ensures
            r@ == self.spec_name(),
    {
        match self {
            CrateNameOrPngFile::PngFile(f) => f.into_crate_name(),
            CrateNameOrPngFile::CrateName(n) => n,
        }
    }
}

} // verus!
