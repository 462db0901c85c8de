//! Character and string utilities: Unicode character classes, conversion
//! between `String` and `Vec<char>`, and whitespace trimming.
use vstd::prelude::*;
use vstd::string::*;

verus! {

broadcast use vstd::seq::group_seq_axioms;

/// Whether a character has the Unicode alphanumeric property, as
/// `char::is_alphanumeric` decides it.
pub uninterp spec fn is_alnum(c: char) -> bool;

/// Whether a character has the Unicode `White_Space` property, as
/// `char::is_whitespace` decides it.
pub uninterp spec fn is_wspace(c: char) -> bool;

/// Relies on `char::is_alphanumeric`: true exactly for Unicode letters and
/// digits, a property of the character alone; ASCII letters and digits are
/// among them.
#[verifier::external_body]
pub fn char_is_alphanumeric(c: char) -> (r: bool)
    ensures
        r == is_alnum(c),
        ('a' <= c && c <= 'z') || ('A' <= c && c <= 'Z') || ('0' <= c && c <= '9') ==> r,
{
    c.is_alphanumeric()
}

/// Relies on `char::is_whitespace`: true exactly for characters with the
/// Unicode `White_Space` property, a property of the character alone; the
/// space and the line feed are among them.
#[verifier::external_body]
pub fn char_is_whitespace(c: char) -> (r: bool)
    ensures
        r == is_wspace(c),
        c == ' ' || c == '\n' ==> r,
{
    c.is_whitespace()
}

/// Relies on `String::push`: appends the given character to the end of the
/// string.
pub assume_specification[ String::push ](s: &mut String, c: char)
    ensures
        final(s)@ == old(s)@.push(c),
;

/// The characters of a string, in order.
pub fn to_chars(s: &str) -> (r: Vec<char>)
    ensures
        r@ == s@,
{
    let n: usize = s.unicode_len();
    let mut r: Vec<char> = Vec::new();
    let mut i: usize = 0;
    while i < n
        invariant
            n == s@.len(),
            i <= n,
            r@ == s@.subrange(0, i as int),
        decreases n - i,
    {
        r.push(s.get_char(i));
        i = i + 1;
        proof {
            assert(r@ =~= s@.subrange(0, i as int));
        }
    }
    proof {
        assert(r@ =~= s@);
    }
    r
}

/// A string holding the given characters, in order.
pub fn from_chars(v: &Vec<char>) -> (r: String)
    ensures
        r@ == v@,
{
    let mut r = String::new();
    let mut i: usize = 0;
    while i < v.len()
        invariant
            i <= v@.len(),
            r@ == v@.subrange(0, i as int),
        decreases v@.len() - i,
    {
        r.push(v[i]);
        i = i + 1;
        proof {
            assert(r@ =~= v@.subrange(0, i as int));
        }
    }
    proof {
        assert(r@ =~= v@);
    }
    r
}

/// The text with every line feed replaced by a space.
pub open spec fn spec_nl_to_space(s: Seq<char>) -> Seq<char> {
    Seq::new(s.len(), |i: int| if s[i] == '\n' { ' ' } else { s[i] })
}

/// Whether the character at position `i` survives space collapsing: a space
/// directly after another space is dropped, every other character stays.
pub open spec fn keeps(s: Seq<char>, i: int) -> bool {
    !(s[i] == ' ' && i > 0 && s[i - 1] == ' ')
}

/// The text with every run of spaces collapsed to a single space.
pub open spec fn spec_collapse(s: Seq<char>) -> Seq<char>
    decreases s.len(),
{
    if s.len() == 0 {
        Seq::empty()
    } else if keeps(s, s.len() - 1) {
        spec_collapse(s.drop_last()).push(s.last())
    } else {
        spec_collapse(s.drop_last())
    }
}

/// The text without its leading white space.
pub open spec fn spec_trim_front(s: Seq<char>) -> Seq<char>
    decreases s.len(),
{
    if s.len() > 0 && is_wspace(s[0]) {
        spec_trim_front(s.drop_first())
    } else {
        s
    }
}

/// The text without its trailing white space.
pub open spec fn spec_trim_back(s: Seq<char>) -> Seq<char>
    decreases s.len(),
{
    if s.len() > 0 && is_wspace(s.last()) {
        spec_trim_back(s.drop_last())
    } else {
        s
    }
}

/// The text without surrounding white space.
pub open spec fn spec_trim(s: Seq<char>) -> Seq<char> {
    spec_trim_back(spec_trim_front(s))
}

/// The last `/`-delimited segment of the text: what follows the final slash,
/// or the whole text when it has no slash.
pub open spec fn spec_basename(s: Seq<char>) -> Seq<char>
    decreases s.len(),
{
    if s.len() == 0 {
        Seq::empty()
    } else if s.last() == '/' {
        Seq::empty()
    } else {
        spec_basename(s.drop_last()).push(s.last())
    }
}

/// No character of the text is a line feed.
pub open spec fn no_newline(s: Seq<char>) -> bool {
    forall|i: int| 0 <= i < s.len() ==> s[i] != '\n'
}

/// No two adjacent characters of the text are both spaces.
pub open spec fn no_double_space(s: Seq<char>) -> bool {
    forall|i: int| 0 <= i && i + 1 < s.len() ==> !(#[trigger] s[i] == ' ' && s[i + 1] == ' ')
}

proof fn lemma_collapse_shape(s: Seq<char>)
    ensures
        no_double_space(spec_collapse(s)),
        spec_collapse(s).len() > 0 && spec_collapse(s).last() == ' ' ==> s.len() > 0
            && s.last() == ' ',
        no_newline(s) ==> no_newline(spec_collapse(s)),
    decreases s.len(),
{
    if s.len() > 0 {
        let d = s.drop_last();
        lemma_collapse_shape(d);
        assert forall|i: int| 0 <= i < d.len() implies #[trigger] d[i] != '\n' || !no_newline(
            s,
        ) by {
            assert(d[i] == s[i]);
        }
        let c = spec_collapse(s);
        if keeps(s, s.len() - 1) {
            let p = spec_collapse(d);
            assert(c == p.push(s.last()));
            assert forall|i: int| 0 <= i && i + 1 < c.len() implies !(#[trigger] c[i] == ' ' && c[i + 1]
                == ' ') by {
                if i + 1 < p.len() {
                    assert(c[i] == p[i] && c[i + 1] == p[i + 1]);
                    assert(!(p[i] == ' ' && p[i + 1] == ' '));
                } else {
                    // the new pair: the last of the prefix and the pushed character
                    assert(i + 1 == p.len());
                    assert(c[i + 1] == s.last());
                    assert(c[i] == p[i] && p[i] == p.last());
                    if c[i] == ' ' && c[i + 1] == ' ' {
                        assert(p.last() == ' ' && s.last() == ' ');
                        assert(d.len() > 0 && d.last() == ' ');
                        assert(s[s.len() - 2] == d.last());
                        assert(!keeps(s, s.len() - 1));
                    }
                }
            }
        }
    }
}

proof fn lemma_trim_front_keeps(s: Seq<char>)
    ensures
        no_newline(s) ==> no_newline(spec_trim_front(s)),
        no_double_space(s) ==> no_double_space(spec_trim_front(s)),
    decreases s.len(),
{
    if s.len() > 0 && is_wspace(s[0]) {
        let d = s.drop_first();
        lemma_trim_front_keeps(d);
        assert forall|i: int| 0 <= i < d.len() implies #[trigger] d[i] == s[i + 1] by {}
        if no_newline(s) {
            assert forall|i: int| 0 <= i < d.len() implies #[trigger] d[i] != '\n' by {
                assert(s[i + 1] != '\n');
            }
        }
        if no_double_space(s) {
            assert forall|i: int| 0 <= i && i + 1 < d.len() implies !(#[trigger] d[i] == ' ' && d[i + 1]
                == ' ') by {
                assert(!(s[i + 1] == ' ' && s[i + 2] == ' '));
            }
        }
    }
}

proof fn lemma_trim_back_keeps(s: Seq<char>)
    ensures
        no_newline(s) ==> no_newline(spec_trim_back(s)),
        no_double_space(s) ==> no_double_space(spec_trim_back(s)),
    decreases s.len(),
{
    if s.len() > 0 && is_wspace(s.last()) {
        let d = s.drop_last();
        lemma_trim_back_keeps(d);
        assert forall|i: int| 0 <= i < d.len() implies #[trigger] d[i] == s[i] by {}
        if no_double_space(s) {
            assert forall|i: int| 0 <= i && i + 1 < d.len() implies !(#[trigger] d[i] == ' ' && d[i + 1]
                == ' ') by {
                assert(!(s[i] == ' ' && s[i + 1] == ' '));
            }
        }
    }
}

/// One-line form of a text: line feeds become spaces, runs of spaces are
/// collapsed to one, surrounding white space is removed.
pub open spec fn spec_one_line(s: Seq<char>) -> Seq<char> {
    spec_trim(spec_collapse(spec_nl_to_space(s)))
}

/// The one-line form of a text holds no line feed and no two adjacent
/// spaces.
pub proof fn lemma_one_line_normal(s: Seq<char>)
    ensures
        no_newline(spec_one_line(s)),
        no_double_space(spec_one_line(s)),
{
    let n = spec_nl_to_space(s);
    assert(no_newline(n));
    lemma_collapse_shape(n);
    lemma_trim_front_keeps(spec_collapse(n));
    lemma_trim_back_keeps(spec_trim_front(spec_collapse(n)));
}

fn nl_to_space_chars(v: &Vec<char>) -> (r: Vec<char>)
    ensures
        r@ == spec_nl_to_space(v@),
{
    let mut r: Vec<char> = Vec::new();
    let mut i: usize = 0;
    while i < v.len()
        invariant
            i <= v@.len(),
            r@.len() == i,
            forall|j: int| 0 <= j < i ==> r@[j] == (if v@[j] == '\n' {
                ' '
            } else {
                v@[j]
            }),
        decreases v@.len() - i,
    {
        let c = v[i];
        if c == '\n' {
            r.push(' ');
        } else {
            r.push(c);
        }
        i = i + 1;
    }
    proof {
        assert(r@ =~= spec_nl_to_space(v@));
    }
    r
}

proof fn lemma_collapse_step(s: Seq<char>, i: int)
    requires
        0 <= i < s.len(),
    ensures
        spec_collapse(s.subrange(0, i + 1)) == if keeps(s, i) {
            spec_collapse(s.subrange(0, i)).push(s[i])
        } else {
            spec_collapse(s.subrange(0, i))
        },
{
    let t = s.subrange(0, i + 1);
    assert(t.drop_last() =~= s.subrange(0, i));
    assert(t.last() == s[i]);
    assert(keeps(t, i) == keeps(s, i));
}

fn collapse_chars(v: &Vec<char>) -> (r: Vec<char>)
    ensures
        r@ == spec_collapse(v@),
{
    let mut r: Vec<char> = Vec::new();
    let mut i: usize = 0;
    while i < v.len()
        invariant
            i <= v@.len(),
            r@ == spec_collapse(v@.subrange(0, i as int)),
        decreases v@.len() - i,
    {
        let c = v[i];
        if !(c == ' ' && i > 0 && v[i - 1] == ' ') {
            r.push(c);
        }
        proof {
            lemma_collapse_step(v@, i as int);
        }
        i = i + 1;
    }
    proof {
        assert(v@.subrange(0, v@.len() as int) =~= v@);
    }
    r
}

proof fn lemma_trim_front_at(s: Seq<char>, a: int)
    requires
        0 <= a <= s.len(),
        forall|i: int| 0 <= i < a ==> is_wspace(#[trigger] s[i]),
        a < s.len() ==> !is_wspace(s[a]),
    ensures
        spec_trim_front(s) == s.subrange(a, s.len() as int),
    decreases a,
{
    if a == 0 {
        assert(s.subrange(0, s.len() as int) =~= s);
    } else {
        let d = s.drop_first();
        assert(is_wspace(s[0]));
        assert forall|i: int| 0 <= i < a - 1 implies is_wspace(#[trigger] d[i]) by {
            assert(d[i] == s[i + 1]);
        }
        lemma_trim_front_at(d, a - 1);
        assert(d.subrange(a - 1, d.len() as int) =~= s.subrange(a, s.len() as int));
    }
}

proof fn lemma_trim_back_at(s: Seq<char>, b: int)
    requires
        0 <= b <= s.len(),
        forall|i: int| b <= i < s.len() ==> is_wspace(#[trigger] s[i]),
        b > 0 ==> !is_wspace(s[b - 1]),
    ensures
        spec_trim_back(s) == s.subrange(0, b),
    decreases s.len(),
{
    if b == s.len() {
        assert(s.subrange(0, b) =~= s);
    } else {
        let d = s.drop_last();
        assert(is_wspace(s.last()));
        assert forall|i: int| b <= i < d.len() implies is_wspace(#[trigger] d[i]) by {
            assert(d[i] == s[i]);
        }
        lemma_trim_back_at(d, b);
        assert(d.subrange(0, b) =~= s.subrange(0, b));
    }
}

fn trim_chars(v: &Vec<char>) -> (r: Vec<char>)
    ensures
        r@ == spec_trim(v@),
{
    let n: usize = v.len();
    let mut a: usize = 0;
    loop
        invariant
            a <= n,
            n == v@.len(),
            forall|i: int| 0 <= i < a ==> is_wspace(#[trigger] v@[i]),
        ensures
            a <= n,
            forall|i: int| 0 <= i < a ==> is_wspace(#[trigger] v@[i]),
            a < n ==> !is_wspace(v@[a as int]),
        decreases n - a,
    {
        if a >= n {
            break ;
        }
        if !char_is_whitespace(v[a]) {
            break ;
        }
        a = a + 1;
    }
    let mut b: usize = n;
    loop
        invariant
            a <= b <= n,
            n == v@.len(),
            forall|i: int| b <= i < n ==> is_wspace(#[trigger] v@[i]),
        ensures
            a <= b <= n,
            forall|i: int| b <= i < n ==> is_wspace(#[trigger] v@[i]),
            b > a ==> !is_wspace(v@[b - 1]),
        decreases b,
    {
        if b <= a {
            break ;
        }
        if !char_is_whitespace(v[b - 1]) {
            break ;
        }
        b = b - 1;
    }
    let mut r: Vec<char> = Vec::new();
    let mut i: usize = a;
    while i < b
        invariant
            a <= i <= b <= n,
            n == v@.len(),
            r@ == v@.subrange(a as int, i as int),
        decreases b - i,
    {
        r.push(v[i]);
        i = i + 1;
        proof {
            assert(r@ =~= v@.subrange(a as int, i as int));
        }
    }
    proof {
        lemma_trim_front_at(v@, a as int);
        let t = v@.subrange(a as int, n as int);
        assert forall|i: int| b - a <= i < t.len() implies is_wspace(#[trigger] t[i]) by {
            assert(t[i] == v@[i + a]);
        }
        if b > a {
            assert(t[b - a - 1] == v@[b - 1]);
        }
        lemma_trim_back_at(t, b - a);
        assert(t.subrange(0, b - a) =~= v@.subrange(a as int, b as int));
        assert(r@ =~= v@.subrange(a as int, b as int));
    }
    r
}

/// The text without surrounding white space, as `str::trim` strips it.
pub fn trim(s: &str) -> (r: String)
    ensures
        r@ == spec_trim(s@),
{
    let v = to_chars(s);
    let t = trim_chars(&v);
    from_chars(&t)
}

/// The one-line form of the text: line feeds become spaces, runs of spaces
/// collapse to one, surrounding white space goes.
pub fn one_line(s: &str) -> (r: String)
    ensures
        r@ == spec_one_line(s@),
{
    let v = to_chars(s);
    let w = nl_to_space_chars(&v);
    let c = collapse_chars(&w);
    let t = trim_chars(&c);
    from_chars(&t)
}

/// The position of the first line feed in the text, or its length when it
/// has none.
pub open spec fn spec_line_end(s: Seq<char>) -> int
    decreases s.len(),
{
    if s.len() == 0 {
        0
    } else if s[0] == '\n' {
        0
    } else {
        1 + spec_line_end(s.drop_first())
    }
}

/// A line without its trailing carriage return, for lines that ended in
/// `\r\n`.
pub open spec fn spec_strip_cr(l: Seq<char>) -> Seq<char> {
    if l.len() > 0 && l.last() == '\r' {
        l.drop_last()
    } else {
        l
    }
}

/// The text split into lines, as `std::io::BufRead::lines` yields them: a
/// line ends at a line feed, which is dropped together with a carriage
/// return just before it; a last fragment without a line feed is kept as it
/// is, and nothing follows a final line feed.
pub open spec fn spec_split_lines(s: Seq<char>) -> Seq<Seq<char>>
    decreases s.len(),
{
    if s.len() == 0 {
        Seq::<Seq<char>>::empty()
    } else {
        let e = spec_line_end(s);
        if 0 <= e && e < s.len() {
            seq![spec_strip_cr(s.subrange(0, e))] + spec_split_lines(
                s.subrange(e + 1, s.len() as int),
            )
        } else {
            seq![s]
        }
    }
}

proof fn lemma_line_end_at(s: Seq<char>, k: int)
    requires
        0 <= k <= s.len(),
        forall|i: int| 0 <= i < k ==> #[trigger] s[i] != '\n',
        k < s.len() ==> s[k] == '\n',
    ensures
        spec_line_end(s) == k,
    decreases k,
{
    if s.len() == 0 {
    } else if k == 0 {
    } else {
        let d = s.drop_first();
        assert forall|i: int| 0 <= i < k - 1 implies #[trigger] d[i] != '\n' by {
            assert(d[i] == s[i + 1]);
        }
        lemma_line_end_at(d, k - 1);
    }
}

/// Splits the text into lines the way `std::io::BufRead::lines` would.
pub fn split_lines(s: &str) -> (r: Vec<String>)
    ensures
        r.deep_view() == spec_split_lines(s@),
{
    let v = to_chars(s);
    let n: usize = v.len();
    let mut r: Vec<String> = Vec::new();
    let mut p: usize = 0;
    proof {
        assert(s@.subrange(0, n as int) =~= s@);
        assert(r.deep_view() =~= Seq::<Seq<char>>::empty());
    }
    while p < n
        invariant
            p <= n,
            n == v@.len(),
            v@ == s@,
            spec_split_lines(s@) =~= r.deep_view() + spec_split_lines(s@.subrange(p as int, n as int)),
        decreases n - p,
    {
        let mut e: usize = p;
        loop
            invariant
                p <= e <= n,
                n == v@.len(),
                v@ == s@,
                forall|i: int| p <= i < e ==> #[trigger] v@[i] != '\n',
            ensures
                p <= e <= n,
                forall|i: int| p <= i < e ==> #[trigger] s@[i] != '\n',
                e < n ==> s@[e as int] == '\n',
            decreases n - e,
        {
            if e == n {
                break ;
            }
            if v[e] == '\n' {
                break ;
            }
            e = e + 1;
        }
        let stop: usize = if e < n && e > p && v[e - 1] == '\r' {
            e - 1
        } else {
            e
        };
        let mut line: Vec<char> = Vec::new();
        let mut i: usize = p;
        while i < stop
            invariant
                p <= i <= stop <= n,
                n == v@.len(),
                line@ == v@.subrange(p as int, i as int),
            decreases stop - i,
        {
            line.push(v[i]);
            i = i + 1;
            proof {
                assert(line@ =~= v@.subrange(p as int, i as int));
            }
        }
        let ghost old_r = r.deep_view();
        let ghost old_rv = r@;
        let made = from_chars(&line);
        r.push(made);
        let ghost p_old = p as int;
        if e < n {
            p = e + 1;
        } else {
            p = n;
        }
        proof {
            let t = s@.subrange(p_old, n as int);
            assert forall|i: int| 0 <= i < e - p_old implies #[trigger] t[i] != '\n' by {
                assert(t[i] == s@[i + p_old]);
            }
            if e < n {
                assert(t[e - p_old] == s@[e as int]);
            }
            lemma_line_end_at(t, e - p_old);
            assert(t.subrange(0, e - p_old) =~= s@.subrange(p_old, e as int));
            if e < n {
                assert(t.subrange(e - p_old + 1, t.len() as int) =~= s@.subrange(
                    p as int,
                    n as int,
                ));
                if e > p_old && s@[e - 1] == '\r' {
                    assert(spec_strip_cr(s@.subrange(p_old, e as int)) =~= s@.subrange(
                        p_old,
                        stop as int,
                    ));
                } else {
                    assert(spec_strip_cr(s@.subrange(p_old, e as int)) == s@.subrange(
                        p_old,
                        e as int,
                    ));
                }
                assert(spec_split_lines(t) == seq![spec_strip_cr(t.subrange(0, e - p_old))]
                    + spec_split_lines(t.subrange(e - p_old + 1, t.len() as int)));
            } else {
                assert(t.subrange(0, e - p_old) =~= t);
                assert(spec_split_lines(t) == seq![t]);
                assert(s@.subrange(p as int, n as int).len() == 0);
                assert(spec_split_lines(s@.subrange(p as int, n as int)) == Seq::<
                    Seq<char>,
                >::empty());
            }
            assert(line@ == s@.subrange(p_old, stop as int));
            assert forall|j: int| 0 <= j < r.deep_view().len() implies r.deep_view()[j] == (old_r
                + seq![line@])[j] by {
                assert(r.deep_view()[j] == r@[j]@);
                assert(r@ == old_rv.push(made));
                if j < old_rv.len() {
                    assert(r@[j] == old_rv[j]);
                    assert(old_r[j] == old_rv[j]@);
                } else {
                    assert(r@[j] == made);
                }
            }
            assert(r.deep_view() =~= old_r + seq![line@]);
            assert(spec_split_lines(s@) =~= r.deep_view() + spec_split_lines(
                s@.subrange(p as int, n as int),
            ));
        }
    }
    proof {
        assert(s@.subrange(n as int, n as int).len() == 0);
        assert(spec_split_lines(s@.subrange(p as int, n as int)) == Seq::<Seq<char>>::empty());
        assert(r.deep_view() =~= spec_split_lines(s@));
    }
    r
}

proof fn lemma_basename_at(s: Seq<char>, k: int)
    requires
        0 <= k <= s.len(),
        forall|i: int| k <= i < s.len() ==> #[trigger] s[i] != '/',
        k > 0 ==> s[k - 1] == '/',
    ensures
        spec_basename(s) == s.subrange(k, s.len() as int),
    decreases s.len(),
{
    if s.len() == 0 {
        assert(s.subrange(0, 0) =~= Seq::<char>::empty());
    } else if s.last() == '/' {
        assert(k == s.len());
        assert(s.subrange(k, s.len() as int) =~= Seq::<char>::empty());
    } else {
        assert(k < s.len());
        let d = s.drop_last();
        assert forall|i: int| k <= i < d.len() implies #[trigger] d[i] != '/' by {
            assert(d[i] == s[i]);
        }
        lemma_basename_at(d, k);
        assert(d.subrange(k, d.len() as int).push(s.last()) =~= s.subrange(k, s.len() as int));
    }
}

/// The last `/`-delimited segment of the text.
pub fn basename(s: &str) -> (r: String)
    ensures
        r@ == spec_basename(s@),
{
    let v = to_chars(s);
    let n: usize = v.len();
    let mut k: usize = n;
    loop
        invariant
            k <= n,
            n == v@.len(),
            v@ == s@,
            forall|i: int| k <= i < n ==> #[trigger] v@[i] != '/',
        ensures
            k <= n,
            forall|i: int| k <= i < n ==> #[trigger] s@[i] != '/',
            k > 0 ==> s@[k - 1] == '/',
        decreases k,
    {
        if k == 0 {
            break ;
        }
        if v[k - 1] == '/' {
            break ;
        }
        k = k - 1;
    }
    let mut r: Vec<char> = Vec::new();
    let mut i: usize = k;
    while i < n
        invariant
            k <= i <= n,
            n == v@.len(),
            r@ == v@.subrange(k as int, i as int),
        decreases n - i,
    {
        r.push(v[i]);
        i = i + 1;
        proof {
            assert(r@ =~= v@.subrange(k as int, i as int));
        }
    }
    proof {
        lemma_basename_at(s@, k as int);
        assert(r@ =~= s@.subrange(k as int, s@.len() as int));
    }
    from_chars(&r)
}

} // verus!
