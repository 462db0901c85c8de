//! The two-column layout: the info block is padded to sit vertically
//! centered beside the image, and the columns are joined row by row with a
//! tab. Whichever column is longer loses its surplus rows silently.
use vstd::prelude::*;
use vstd::string::*;
use crate::text::{spec_trim, trim};

verus! {

broadcast use vstd::seq::group_seq_axioms;

/// A block of `n` empty lines.
pub open spec fn spec_blanks(n: nat) -> Seq<Seq<char>> {
    Seq::new(n, |i: int| Seq::<char>::empty())
}

/// The info block padded for an image of `n` rows: when the image is taller
/// by more than one row, half the surplus (rounded down) in blank lines goes
/// before and after the block; an odd surplus keeps one row of asymmetry.
/// With a surplus of one or none the block is unchanged.
pub open spec fn spec_padded(info: Seq<Seq<char>>, n: int) -> Seq<Seq<char>> {
    let p = n - info.len();
    if p > 1 {
        spec_blanks((p / 2) as nat) + info + spec_blanks((p / 2) as nat)
    } else {
        info
    }
}

/// One composite row: the image row untouched, a tab, and the info row with
/// its surrounding white space stripped.
pub open spec fn spec_row(img: Seq<char>, inf: Seq<char>) -> Seq<char> {
    img + "\t"@ + spec_trim(inf)
}

/// The composed output: the image rows joined with the padded info rows,
/// cut to the shorter of the two columns.
pub open spec fn spec_compose(img: Seq<Seq<char>>, info: Seq<Seq<char>>) -> Seq<Seq<char>> {
    let padded = spec_padded(info, img.len() as int);
    let k = if img.len() < padded.len() {
        img.len()
    } else {
        padded.len()
    };
    Seq::new(k, |i: int| spec_row(img[i], padded[i]))
}

/// Composes the final output lines from the image rows and the info lines.
pub fn compose(image: &Vec<String>, info: &Vec<String>) -> (r: Vec<String>)
    ensures
        r.deep_view() == spec_compose(image.deep_view(), info.deep_view()),
{
    let ghost gi = image.deep_view();
    let ghost gf = info.deep_view();
    let ghost gp = spec_padded(info.deep_view(), image.deep_view().len() as int);
    let n: usize = image.len();
    let m: usize = info.len();
    let mut padded: Vec<String> = Vec::new();
    if n > m && n - m > 1 {
        let half: usize = (n - m) / 2;
        let mut i: usize = 0;
        while i < half
            invariant
                i <= half,
                padded@.len() == i,
                forall|t: int| 0 <= t < i ==> (#[trigger] padded@[t])@ == Seq::<char>::empty(),
            decreases half - i,
        {
            padded.push(String::new());
            i = i + 1;
        }
        let mut j: usize = 0;
        while j < m
            invariant
                j <= m,
                m == info@.len(),
                padded@.len() == half + j,
                forall|t: int| 0 <= t < half ==> (#[trigger] padded@[t])@ == Seq::<char>::empty(),
                forall|t: int| 0 <= t < j ==> #[trigger] padded@[half + t] == info@[t],
            decreases m - j,
        {
            padded.push(info[j].clone());
            j = j + 1;
        }
        let mut w: usize = 0;
        while w < half
            invariant
                w <= half,
                m == info@.len(),
                padded@.len() == half + m + w,
                forall|t: int| 0 <= t < half ==> (#[trigger] padded@[t])@ == Seq::<char>::empty(),
                forall|t: int| 0 <= t < m ==> #[trigger] padded@[half + t] == info@[t],
                forall|t: int|
                    half + m <= t < half + m + w ==> (#[trigger] padded@[t])@ == Seq::<
                        char,
                    >::empty(),
            decreases half - w,
        {
            padded.push(String::new());
            w = w + 1;
        }
        proof {
            assert(gp == spec_blanks(half as nat) + gf + spec_blanks(half as nat));
            assert forall|t: int| 0 <= t < gp.len() implies padded.deep_view()[t] == gp[t] by {
                assert(padded.deep_view()[t] == padded@[t]@);
                if t < half {
                    assert(gp[t] == Seq::<char>::empty());
                } else if t < half + m {
                    assert(gp[t] == gf[t - half]);
                    assert(padded@[half + (t - half)] == info@[t - half]);
                    assert(padded@[t] == info@[t - half]);
                    assert(gf[t - half] == info@[t - half]@);
                } else {
                    assert(gp[t] == Seq::<char>::empty());
                }
            }
            assert(padded.deep_view() =~= gp);
        }
    } else {
        let mut j: usize = 0;
        while j < m
            invariant
                j <= m,
                m == info@.len(),
                padded@.len() == j,
                forall|t: int| 0 <= t < j ==> #[trigger] padded@[t] == info@[t],
            decreases m - j,
        {
            padded.push(info[j].clone());
            j = j + 1;
        }
        proof {
            assert(gp == gf);
            assert forall|t: int| 0 <= t < gp.len() implies padded.deep_view()[t] == gp[t] by {
                assert(padded.deep_view()[t] == padded@[t]@);
                assert(padded@[t] == info@[t]);
            }
            assert(padded.deep_view() =~= gp);
        }
    }
    let k: usize = if n < padded.len() {
        n
    } else {
        padded.len()
    };
    let ghost go = spec_compose(gi, gf);
    proof {
        assert(go.len() == k);
    }
    let mut r: Vec<String> = Vec::new();
    let mut i: usize = 0;
    while i < k
        invariant
            i <= k,
            n == image@.len(),
            gi == image.deep_view(),
            padded.deep_view() == gp,
            padded@.len() == gp.len(),
            k <= image@.len(),
            k <= padded@.len(),
            gp == spec_padded(gf, gi.len() as int),
            go == spec_compose(gi, gf),
            go.len() == k,
            r@.len() == i,
            forall|j: int| 0 <= j < i ==> (#[trigger] r@[j])@ == go[j],
        decreases k - i,
    {
        let mut row = image[i].clone();
        row.append("\t");
        let t = trim(padded[i].as_str());
        row.append(t.as_str());
        proof {
            assert(gi[i as int] == image@[i as int]@);
            assert(gp[i as int] == padded.deep_view()[i as int]);
            assert(padded.deep_view()[i as int] == padded@[i as int]@);
            assert(t@ == spec_trim(gp[i as int]));
            assert(row@ == image@[i as int]@ + "\t"@ + t@);
            assert(row@ =~= spec_row(gi[i as int], gp[i as int]));
            assert(spec_compose(gi, gf)[i as int] == spec_row(
                gi[i as int],
                spec_padded(gf, gi.len() as int)[i as int],
            ));
            assert(go[i as int] == spec_row(gi[i as int], gp[i as int]));
        }
        r.push(row);
        i = i + 1;
    }
    proof {
        assert forall|j: int| 0 <= j < go.len() implies r.deep_view()[j] == go[j] by {
            assert(r.deep_view()[j] == r@[j]@);
        }
        assert(r.deep_view() =~= go);
    }
    r
}

/// Symmetric padding: when the image is taller than the info block by at
/// least two rows, the output begins and ends with half that surplus
/// (rounded down) rows whose info column is empty.
pub proof fn lemma_symmetric_padding(img: Seq<Seq<char>>, info: Seq<Seq<char>>)
    requires
        img.len() >= info.len() + 2,
    ensures
        ({
            let half = (img.len() - info.len()) / 2;
            let out = spec_compose(img, info);
            &&& out.len() == info.len() + 2 * half
            &&& forall|i: int|
                0 <= i < half ==> #[trigger] out[i] == img[i] + "\t"@
            &&& forall|i: int|
                info.len() + half <= i < out.len() ==> #[trigger] out[i] == img[i] + "\t"@
        }),
{
    let half = (img.len() - info.len()) / 2 as int;
    let out = spec_compose(img, info);
    let padded = spec_padded(info, img.len() as int);
    assert(padded.len() == info.len() + 2 * half);
    assert(padded.len() <= img.len());
    assert(out.len() == padded.len());
    assert(spec_trim(Seq::<char>::empty()) == Seq::<char>::empty());
    assert forall|i: int| 0 <= i < half implies #[trigger] out[i] == img[i] + "\t"@ by {
        assert(padded[i] == Seq::<char>::empty());
        assert(out[i] == spec_row(img[i], Seq::<char>::empty()));
        assert(img[i] + "\t"@ + Seq::<char>::empty() =~= img[i] + "\t"@);
    }
    assert forall|i: int| info.len() + half <= i < out.len() implies #[trigger] out[i] == img[i]
        + "\t"@ by {
        assert(padded[i] == Seq::<char>::empty());
        assert(out[i] == spec_row(img[i], Seq::<char>::empty()));
        assert(img[i] + "\t"@ + Seq::<char>::empty() =~= img[i] + "\t"@);
    }
}

} // verus!
