//! The info column: an ordered block of status lines, one per probe that
//! succeeded. A failing probe is skipped silently and contributes nothing;
//! the order of the surviving lines never changes.
use vstd::prelude::*;
use vstd::string::*;
use crate::style::{spec_bold, spec_dim, spec_italic, bold, dim, italic};
use crate::text::{spec_basename, spec_one_line, basename, one_line};

verus! {

broadcast use vstd::seq::group_seq_axioms;

/// The view of an optional string.
pub open spec fn spec_opt_view(o: Option<String>) -> Option<Seq<char>> {
    match o {
        Some(s) => Some(s@),
        None => None,
    }
}

/// The views of an optional pair of strings.
pub open spec fn spec_opt_pair_view(o: Option<(String, String)>) -> Option<
    (Seq<char>, Seq<char>),
> {
    match o {
        Some(p) => Some((p.0@, p.1@)),
        None => None,
    }
}

/// The greeting line.
pub open spec fn spec_hello_line(user: Seq<char>) -> Seq<char> {
    "Hello, "@ + user
}

/// The clock line; the timestamp is embedded verbatim.
pub open spec fn spec_time_line(t: Seq<char>) -> Seq<char> {
    "It is "@ + t
}

/// The track line: bold title, a separator, dim album name.
pub open spec fn spec_track_line(title: Seq<char>, album: Seq<char>) -> Seq<char> {
    spec_bold(title) + " - "@ + spec_dim(album)
}

/// The quote line: the one-line form of the quote in literal double quotes,
/// italic inside dim.
pub open spec fn spec_quote_line(q: Seq<char>) -> Seq<char> {
    spec_dim(spec_italic("\""@ + spec_one_line(q) + "\""@))
}

/// The terminal/shell tag line: each present tag dimmed, joined by `" | "`
/// when both are present; the shell appears as the basename of its path.
pub open spec fn spec_tail_line(term: Option<Seq<char>>, shell: Option<Seq<char>>) -> Seq<char> {
    match (term, shell) {
        (Some(t), Some(s)) => spec_dim(t) + " | "@ + spec_dim(spec_basename(s)),
        (Some(t), None) => spec_dim(t),
        (None, Some(s)) => spec_dim(spec_basename(s)),
        (None, None) => Seq::<char>::empty(),
    }
}

/// What the `USER` probe contributes: its greeting line, or nothing.
pub open spec fn spec_hello_seg(user: Option<Seq<char>>) -> Seq<Seq<char>> {
    match user {
        Some(u) => seq![spec_hello_line(u)],
        None => Seq::<Seq<char>>::empty(),
    }
}

/// What the clock probe contributes: its line, or nothing.
pub open spec fn spec_time_seg(time: Option<Seq<char>>) -> Seq<Seq<char>> {
    match time {
        Some(t) => seq![spec_time_line(t)],
        None => Seq::<Seq<char>>::empty(),
    }
}

/// What the player and the quote source contribute together: the track line
/// when the player answered, else the quote line when the quote source
/// answered, else nothing.
pub open spec fn spec_middle_seg(
    song: Option<(Seq<char>, Seq<char>)>,
    quote: Option<Seq<char>>,
) -> Seq<Seq<char>> {
    match song {
        Some(s) => seq![spec_track_line(s.0, s.1)],
        None => match quote {
            Some(q) => seq![spec_quote_line(q)],
            None => Seq::<Seq<char>>::empty(),
        },
    }
}

/// What the `TERM` and `SHELL` probes contribute: a spacer blank line and
/// the tag line when at least one is present, nothing when both are absent.
pub open spec fn spec_tail_seg(term: Option<Seq<char>>, shell: Option<Seq<char>>) -> Seq<
    Seq<char>,
> {
    if term is None && shell is None {
        Seq::<Seq<char>>::empty()
    } else {
        seq![Seq::<char>::empty(), spec_tail_line(term, shell)]
    }
}

/// The whole info block: the four segments in their canonical order.
pub open spec fn spec_info(
    user: Option<Seq<char>>,
    time: Option<Seq<char>>,
    song: Option<(Seq<char>, Seq<char>)>,
    quote: Option<Seq<char>>,
    term: Option<Seq<char>>,
    shell: Option<Seq<char>>,
) -> Seq<Seq<char>> {
    spec_hello_seg(user) + spec_time_seg(time) + spec_middle_seg(song, quote) + spec_tail_seg(
        term,
        shell,
    )
}

/// Builds the info block from the probes' results. A probe that failed
/// hands in `None` and is skipped silently.
pub fn build_info(
    user: Option<String>,
    time: Option<String>,
    song: Option<(String, String)>,
    quote: Option<String>,
    term: Option<String>,
    shell: Option<String>,
) -> (r: Vec<String>)
    ensures
        r.deep_view() == spec_info(
            spec_opt_view(user),
            spec_opt_view(time),
            spec_opt_pair_view(song),
            spec_opt_view(quote),
            spec_opt_view(term),
            spec_opt_view(shell),
        ),
{
    let ghost gu = spec_opt_view(user);
    let ghost gt = spec_opt_view(time);
    let ghost gs = spec_opt_pair_view(song);
    let ghost gq = spec_opt_view(quote);
    let ghost gterm = spec_opt_view(term);
    let ghost gshell = spec_opt_view(shell);
    let mut block: Vec<String> = Vec::new();
    match &user {
        Some(u) => {
            let mut l = String::from_str("Hello, ");
            l.append(u.as_str());
            block.push(l);
        },
        None => {},
    }
    proof {
        assert(block.deep_view() =~= spec_hello_seg(gu));
    }
    match &time {
        Some(t) => {
            let mut l = String::from_str("It is ");
            l.append(t.as_str());
            block.push(l);
        },
        None => {},
    }
    proof {
        assert(block.deep_view() =~= spec_hello_seg(gu) + spec_time_seg(gt));
    }
    match &song {
        Some(p) => {
            let mut l = bold(p.0.as_str());
            l.append(" - ");
            let a = dim(p.1.as_str());
            l.append(a.as_str());
            proof {
                assert(l@ =~= spec_track_line(p.0@, p.1@));
            }
            block.push(l);
        },
        None => {
            match &quote {
                Some(q) => {
                    let body = one_line(q.as_str());
                    let mut quoted = String::from_str("\"");
                    quoted.append(body.as_str());
                    quoted.append("\"");
                    let inner = italic(quoted.as_str());
                    let l = dim(inner.as_str());
                    proof {
                        assert(quoted@ =~= "\""@ + spec_one_line(q@) + "\""@);
                        assert(l@ =~= spec_quote_line(q@));
                    }
                    block.push(l);
                },
                None => {},
            }
        },
    }
    proof {
        assert(block.deep_view() =~= spec_hello_seg(gu) + spec_time_seg(gt) + spec_middle_seg(
            gs,
            gq,
        ));
    }
    match (&term, &shell) {
        (Some(t), Some(s)) => {
            block.push(String::new());
            let mut l = dim(t.as_str());
            l.append(" | ");
            let b = basename(s.as_str());
            let db = dim(b.as_str());
            l.append(db.as_str());
            proof {
                assert(l@ =~= spec_tail_line(gterm, gshell));
            }
            block.push(l);
        },
        (Some(t), None) => {
            block.push(String::new());
            let l = dim(t.as_str());
            block.push(l);
        },
        (None, Some(s)) => {
            block.push(String::new());
            let b = basename(s.as_str());
            let l = dim(b.as_str());
            block.push(l);
        },
        (None, None) => {},
    }
    proof {
        assert(block.deep_view() =~= spec_info(gu, gt, gs, gq, gterm, gshell));
    }
    block
}

/// Soft-skip closure: the info block is exactly the concatenation of the
/// contributions of the sources that succeeded, in their canonical order; a
/// failing source contributes nothing and the rest keep their places.
pub proof fn lemma_soft_skip(
    user: Option<Seq<char>>,
    time: Option<Seq<char>>,
    song: Option<(Seq<char>, Seq<char>)>,
    quote: Option<Seq<char>>,
    term: Option<Seq<char>>,
    shell: Option<Seq<char>>,
)
    ensures
        spec_info(user, time, song, quote, term, shell) == spec_hello_seg(user) + spec_time_seg(
            time,
        ) + spec_middle_seg(song, quote) + spec_tail_seg(term, shell),
        user is None ==> spec_hello_seg(user) == Seq::<Seq<char>>::empty(),
        user matches Some(u) ==> spec_hello_seg(user) == seq![spec_hello_line(u)],
        time is None ==> spec_time_seg(time) == Seq::<Seq<char>>::empty(),
        time matches Some(t) ==> spec_time_seg(time) == seq![spec_time_line(t)],
        song is None && quote is None ==> spec_middle_seg(song, quote) == Seq::<
            Seq<char>,
        >::empty(),
        term is None && shell is None ==> spec_tail_seg(term, shell) == Seq::<Seq<char>>::empty(),
        spec_info(user, time, song, quote, term, shell).len() == spec_hello_seg(user).len()
            + spec_time_seg(time).len() + spec_middle_seg(song, quote).len() + spec_tail_seg(
            term,
            shell,
        ).len(),
{
}

/// Branch exclusivity: a run shows the track line or the quote line, never
/// both; when the player is gone and the quote source fails too, neither
/// appears.
pub proof fn lemma_branch_exclusive(
    song: Option<(Seq<char>, Seq<char>)>,
    quote: Option<Seq<char>>,
)
    ensures
        song matches Some(s) ==> spec_middle_seg(song, quote) == seq![spec_track_line(s.0, s.1)],
        song is None ==> (quote matches Some(q) ==> spec_middle_seg(song, quote) == seq![
            spec_quote_line(q),
        ]),
        song is None && quote is None ==> spec_middle_seg(song, quote) == Seq::<
            Seq<char>,
        >::empty(),
        spec_middle_seg(song, quote).len() <= 1,
{
}

} // verus!
