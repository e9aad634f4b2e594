//! The text of an export: the locations of the samples that scored well
//! enough, one on each line.

use vstd::prelude::*;
use vstd::string::StringExecFns;
use crate::sample::{Sample, SampleView};

verus! {

/// The locations of the samples whose score is at least `min_score`, in the
/// order in which the samples were given.
pub open spec fn selected_paths(samples: Seq<SampleView>, min_score: int) -> Seq<Seq<char>> {
    samples.filter(|sample: SampleView| sample.score >= min_score).map_values(
        |sample: SampleView| sample.path,
    )
}

/// `lines` with a line feed between each two neighbours, and none at the end.
pub open spec fn joined_lines(lines: Seq<Seq<char>>) -> Seq<char>
    decreases lines.len(),
{
    if lines.len() == 0 {
        Seq::empty()
    } else if lines.len() == 1 {
        lines[0]
    } else {
        joined_lines(lines.drop_last()) + seq!['\n'] + lines.last()
    }
}

/// What an export holds.
pub open spec fn export_text(samples: Seq<SampleView>, min_score: int) -> Seq<char> {
    joined_lines(selected_paths(samples, min_score))
}

/// What the last sample adds to the locations selected before it.
pub proof fn lemma_selected_paths_step(samples: Seq<SampleView>, min_score: int)
    requires
        samples.len() > 0,
    ensures
        selected_paths(samples, min_score) == if samples.last().score >= min_score {
            selected_paths(samples.drop_last(), min_score).push(samples.last().path)
        } else {
            selected_paths(samples.drop_last(), min_score)
        },
{
    reveal(Seq::filter);
    let good = |sample: SampleView| sample.score >= min_score;
    if samples.last().score >= min_score {
        assert(samples.filter(good) == samples.drop_last().filter(good).push(samples.last()));
        assert(selected_paths(samples, min_score) =~= selected_paths(
            samples.drop_last(),
            min_score,
        ).push(samples.last().path));
    } else {
        assert(samples.filter(good) == samples.drop_last().filter(good));
    }
}

/// Writes out the locations of the samples that scored at least `min_score`:
/// one location on each line, in the order of `samples`, with no line feed
/// after the last.
pub fn export_results(samples: &Vec<Sample>, min_score: i32) -> (content: String)
    ensures
        content@ == export_text(samples.deep_view(), min_score as int),
{
    let mut content = String::new();
    let mut empty = true;
    let mut i: usize = 0;
    while i < samples.len()
        invariant
            i <= samples.len(),
            empty == (selected_paths(samples.deep_view().take(i as int), min_score as int).len()
                == 0),
            content@ == export_text(samples.deep_view().take(i as int), min_score as int),
        decreases samples.len() - i,
    {
        let sample = &samples[i];
        proof {
            let upto = samples.deep_view().take(i + 1);
            lemma_selected_paths_step(upto, min_score as int);
            assert(upto.drop_last() =~= samples.deep_view().take(i as int));
            assert(upto.last() == sample@);
            let before = selected_paths(upto.drop_last(), min_score as int);
            assert(before.push(sample@.path).drop_last() =~= before);
            reveal_strlit("\n");
            assert("\n"@ =~= seq!['\n']);
        }
        if sample.score >= min_score {
            if !empty {
                content.append("\n");
            }
            content.append(sample.path.as_str());
            empty = false;
        }
        i += 1;
    }
    assert(samples.deep_view().take(samples.len() as int) =~= samples.deep_view());
    content
}

} // verus!
