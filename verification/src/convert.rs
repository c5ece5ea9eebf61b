//! Render-ready crate records: strings escaped for typst source, the
//! display bounds on descriptions and owner lists, and the record handed
//! to the renderer.

use vstd::prelude::*;
use vstd::string::StrSliceExecFns;
use crate::names::CrateName;

verus! {

/// Number of characters a description is cut down to for display.
pub const MAX_DESCRIPTION_LEN: usize = 100;

/// Number of owners shown from each owner sub-list.
pub const MAX_OWNERS_SHOWN: usize = 3;

/// A character that may not stand bare in typst source.
pub open spec fn is_typst_special(c: char) -> bool {
    c == '#' || c == '\\' || c == '^' || c == '$' || c == '"'
}

/// One character, escaped: specials gain a leading backslash.
pub open spec fn escape_char(c: char) -> Seq<char> {
    if is_typst_special(c) {
        seq!['\\', c]
    } else {
        seq![c]
    }
}

/// A whole string escaped, character by character.
pub open spec fn typst_escaped(s: Seq<char>) -> Seq<char>
    decreases s.len(),
{
    if s.len() == 0 {
        Seq::empty()
    } else {
        typst_escaped(s.drop_last()) + escape_char(s.last())
    }
}

/// The rightmost index at most `b` holding a space, or `-1` if there is
/// none.
pub open spec fn last_space_at_most(s: Seq<char>, b: int) -> int
    decreases b + 1,
{
    if b < 0 {
        -1
    } else if s[b] == ' ' {
        b
    } else {
        last_space_at_most(s, b - 1)
    }
}

/// A description cut down for display: unchanged when it fits the bound;
/// otherwise cut at the last word boundary at or before the bound (or
/// hard at the bound when a single word spans it), with an ellipsis
/// marker appended.
pub open spec fn truncated_description(s: Seq<char>) -> Seq<char> {
    if s.len() <= MAX_DESCRIPTION_LEN {
        s
    } else {
        let sp = last_space_at_most(s, MAX_DESCRIPTION_LEN as int);
        let cut = if sp >= 0 {
            sp
        } else {
            MAX_DESCRIPTION_LEN as int
        };
        s.take(cut) + "..."@
    }
}

/// A string that is safe to use directly in typst source code.
#[derive(Debug, Clone, PartialEq, Eq, Hash)]
pub struct TypstString(String);

impl View for TypstString {
    type V = Seq<char>;

    closed spec fn view(&self) -> Seq<char> {
        self.0@
    }
}

impl TypstString {
    /// Escape `s` so it can stand in typst source.
    pub fn escape(s: &str) -> (r: TypstString)
        ensures
            r@ == typst_escaped(s@),
    {
        let n = s.unicode_len();
        let mut out = String::new();
        let mut i: usize = 0;
        while i < n
            invariant
                n == s@.len(),
                i <= n,
                out@ == typst_escaped(s@.take(i as int)),
            decreases n - i,
        {
            let c = s.get_char(i);
            if c == '#' || c == '\\' || c == '^' || c == '$' || c == '"' {
                out.append("\\");
                proof {
                    reveal_strlit("\\");
                }
            }
            let piece = s.substring_char(i, i + 1);
            out.append(piece);
            proof {
                let pre = s@.take(i as int);
                let cur = s@.take(i + 1);
                assert(cur.drop_last() =~= pre);
                assert(cur.last() == s@[i as int]);
                assert(piece@ =~= seq![s@[i as int]]);
                assert(out@ =~= typst_escaped(pre) + escape_char(cur.last()));
            }
            i = i + 1;
        }
        proof {
            assert(s@.take(n as int) =~= s@);
        }
        TypstString(out)
    }

    /// Borrow the escaped text.
    pub fn inner(&self) -> (r: &String)
        ensures
            r@ == self@,
    {
        &self.0
    }
}

/// Cut a description down for display, per [`truncated_description`].
pub fn truncate_description(s: &str) -> (r: String)
    ensures
        r@ == truncated_description(s@),
{
    let n = s.unicode_len();
    if n <= MAX_DESCRIPTION_LEN {
        return s.to_owned();
    }
    let mut j: usize = MAX_DESCRIPTION_LEN;
    let mut found = false;
    while !found && j > 0
        invariant
            n == s@.len(),
            n > MAX_DESCRIPTION_LEN,
            j <= MAX_DESCRIPTION_LEN,
            found ==> s@[j as int] == ' ',
            found ==> last_space_at_most(s@, MAX_DESCRIPTION_LEN as int) == j,
            !found ==> last_space_at_most(s@, MAX_DESCRIPTION_LEN as int) == last_space_at_most(
                s@,
                j as int,
            ),
        decreases (if found {
            0int
        } else {
            1int
        }), j,
    {
        if s.get_char(j) == ' ' {
            found = true;
        } else {
            j = j - 1;
        }
    }
    let cut: usize = if found {
        j
    } else if s.get_char(0) == ' ' {
        0
    } else {
        MAX_DESCRIPTION_LEN
    };
    proof {
        if !found {
            if s@[0] == ' ' {
                assert(last_space_at_most(s@, MAX_DESCRIPTION_LEN as int) == 0);
            } else {
                assert(last_space_at_most(s@, -1) == -1);
                assert(last_space_at_most(s@, 0) == -1);
                assert(last_space_at_most(s@, MAX_DESCRIPTION_LEN as int) == -1);
            }
        }
    }
    let base = s.substring_char(0, cut);
    let mut r = base.to_owned();
    r.append("...");
    proof {
        reveal_strlit("...");
        assert(r@ =~= truncated_description(s@));
    }
    r
}

/// A team crate owner.
#[derive(Debug, Clone, PartialEq, Eq)]
pub struct TeamCrateOwner {
    /// URL of the owner's avatar image.
    pub avatar: TypstString,
}

impl View for TeamCrateOwner {
    type V = Seq<char>;

    open spec fn view(&self) -> Seq<char> {
        self.avatar@
    }
}

impl DeepView for TeamCrateOwner {
    type V = Seq<char>;

    open spec fn deep_view(&self) -> Seq<char> {
        self.view()
    }
}

/// A user crate owner.
#[derive(Debug, Clone, PartialEq, Eq)]
pub struct UserCrateOwner {
    /// URL of the owner's avatar image.
    pub avatar: TypstString,
}

impl View for UserCrateOwner {
    type V = Seq<char>;

    open spec fn view(&self) -> Seq<char> {
        self.avatar@
    }
}

impl DeepView for UserCrateOwner {
    type V = Seq<char>;

    open spec fn deep_view(&self) -> Seq<char> {
        self.view()
    }
}

/// An owner sub-list capped to the display count.
pub open spec fn capped_owners<T>(s: Seq<T>) -> Seq<T> {
    if s.len() <= MAX_OWNERS_SHOWN {
        s
    } else {
        s.take(MAX_OWNERS_SHOWN as int)
    }
}

/// Crate data ready for rendering: the augmented, display-shaped
/// projection of one catalog record.
#[derive(Debug, Clone, PartialEq, Eq)]
pub struct CrateData {
    /// The name of the crate.
    pub name: CrateName,
    /// The crate's description, truncated for display and escaped.
    pub description: TypstString,
    /// The team owners of the crate, capped for display.
    pub team_owners: Vec<TeamCrateOwner>,
    /// The user owners of the crate, capped for display.
    pub user_owners: Vec<UserCrateOwner>,
    /// The license of the crate's default version, once that version is
    /// known.
    pub license: Option<TypstString>,
}

} // verus!
