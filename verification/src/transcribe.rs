//! Assembly of a local model's segment texts into one transcript.

use vstd::prelude::*;
use vstd::string::*;

use crate::state::opt_views;
use crate::text::{trim, trim_str};

verus! {

/// The text of the first `k` of `n` segments: each present segment trimmed,
/// followed by a space unless it is the last segment; missing segments add
/// nothing.
pub open spec fn joined(segs: Seq<Option<Seq<char>>>, k: int) -> Seq<char>
    decreases k,
{
    if k <= 0 {
        Seq::empty()
    } else {
        let prev = joined(segs, k - 1);
        match segs[k - 1] {
            Some(t) => prev + trim(t) + (if k - 1 < segs.len() - 1 {
                " "@
            } else {
                Seq::empty()
            }),
            None => prev,
        }
    }
}

/// Segments are joined by exactly one space, each trimmed: two segments give
/// the first, a space and the second; one segment gives its trimmed text.
pub proof fn lemma_join_two_segments(a: Seq<char>, b: Seq<char>)
    ensures
        joined(seq![Some(a), Some(b)], 2) == trim(a) + " "@ + trim(b),
        joined(seq![Some(a)], 1) == trim(a),
        joined(seq![Some(a), None], 2) == trim(a) + " "@,
{
    let s2 = seq![Some(a), Some(b)];
    assert(joined(s2, 0) == Seq::<char>::empty());
    assert(joined(s2, 1) == trim(a) + " "@);
    assert(joined(s2, 2) == joined(s2, 1) + trim(b) + Seq::<char>::empty());
    assert(joined(s2, 2) =~= trim(a) + " "@ + trim(b));
    let s1 = seq![Some(a)];
    assert(joined(s1, 0) == Seq::<char>::empty());
    assert(joined(s1, 1) =~= trim(a));
    let s3 = seq![Some(a), None::<Seq<char>>];
    assert(joined(s3, 0) == Seq::<char>::empty());
    assert(joined(s3, 1) =~= trim(a) + " "@);
}

/// Joins the segment texts of a transcription (`None` for a segment that
/// could not be read) with single spaces and trims the result.
pub fn join_segments(segments: &Vec<Option<String>>) -> (r: String)
    ensures
        r@ == trim(joined(opt_views(segments@), segments@.len() as int)),
{
    let n: usize = segments.len();
    let ghost segs = opt_views(segments@);
    let mut text: String = String::new();
    let mut i: usize = 0;
    while i < n
        invariant
            n == segments@.len(),
            segs == opt_views(segments@),
            i <= n,
            text@ == joined(segs, i as int),
        decreases n - i,
    {
        match &segments[i] {
            Some(seg) => {
                let t: String = trim_str(seg.as_str());
                text.append(t.as_str());
                if i < n - 1 {
                    text.append(" ");
                }
            },
            None => {},
        }
        i = i + 1;
    }
    trim_str(text.as_str())
}

} // verus!
