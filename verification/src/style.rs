//! ANSI terminal styling: a styled fragment is the text wrapped in the
//! style's escape sequence and the reset sequence. Consumers that do not
//! interpret escapes see the raw text.
use vstd::prelude::*;
use vstd::string::*;

verus! {

/// The text wrapped in the ANSI bold sequence and the reset sequence.
pub open spec fn spec_bold(s: Seq<char>) -> Seq<char> {
    "\u{1b}[1m"@ + s + "\u{1b}[0m"@
}

/// The text wrapped in the ANSI dim sequence and the reset sequence.
pub open spec fn spec_dim(s: Seq<char>) -> Seq<char> {
    "\u{1b}[2m"@ + s + "\u{1b}[0m"@
}

/// The text wrapped in the ANSI italic sequence and the reset sequence.
pub open spec fn spec_italic(s: Seq<char>) -> Seq<char> {
    "\u{1b}[3m"@ + s + "\u{1b}[0m"@
}

/// Renders the text bold.
pub fn bold(s: &str) -> (r: String)
    ensures
        r@ == spec_bold(s@),
{
    let mut r = String::from_str("\u{1b}[1m");
    r.append(s);
    r.append("\u{1b}[0m");
    proof {
        assert(r@ =~= spec_bold(s@));
    }
    r
}

/// Renders the text dim.
pub fn dim(s: &str) -> (r: String)
    ensures
        r@ == spec_dim(s@),
{
    let mut r = String::from_str("\u{1b}[2m");
    r.append(s);
    r.append("\u{1b}[0m");
    proof {
        assert(r@ =~= spec_dim(s@));
    }
    r
}

/// Renders the text italic.
pub fn italic(s: &str) -> (r: String)
    ensures
        r@ == spec_italic(s@),
{
    let mut r = String::from_str("\u{1b}[3m");
    r.append(s);
    r.append("\u{1b}[0m");
    proof {
        assert(r@ =~= spec_italic(s@));
    }
    r
}

} // verus!
