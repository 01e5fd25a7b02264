//! The text of the abort payload: a fixed prefix, the failing type's
//! label, a separator, and the failure's rendered message; and the
//! expanded rendering of a causal chain, whose segments are joined
//! outer-to-inner by a fixed delimiter.

use vstd::prelude::*;
use vstd::string::*;

verus! {

/// The payload carried by every abort this library raises: the label of
/// the failing value's type and its rendered message, in a fixed frame.
pub open spec fn diagnostic_text(label: Seq<char>, rendered: Seq<char>) -> Seq<char> {
    "error: "@ + label + " - "@ + rendered
}

/// Builds the abort payload for a failure whose type is labelled `label`
/// and whose message renders as `rendered`.
pub fn diagnostic_message(label: &str, rendered: &str) -> (r: String)
    ensures
        r@ == diagnostic_text(label@, rendered@),
{
    let mut r = String::from_str("error: ");
    r.append(label);
    r.append(" - ");
    r.append(rendered);
    proof {
        assert(r@ =~= diagnostic_text(label@, rendered@));
    }
    r
}

/// The views of a sequence of strings.
pub open spec fn seq_views(segments: Seq<String>) -> Seq<Seq<char>> {
    segments.map_values(|s: String| s@)
}

/// The expanded rendering of a causal chain: its segments, outer first,
/// joined by the delimiter `": "`.
pub open spec fn chain_text(segments: Seq<Seq<char>>) -> Seq<char>
    decreases segments.len(),
{
    if segments.len() == 0 {
        Seq::empty()
    } else if segments.len() == 1 {
        segments[0]
    } else {
        segments[0] + ": "@ + chain_text(segments.drop_first())
    }
}

/// Appending one more segment to a nonempty chain appends one delimiter
/// and that segment to the rendering.
proof fn lemma_chain_text_push(segments: Seq<Seq<char>>, last: Seq<char>)
    requires
        segments.len() >= 1,
    ensures
        chain_text(segments.push(last)) == chain_text(segments) + ": "@ + last,
    decreases segments.len(),
{
    let pushed = segments.push(last);
    if segments.len() == 1 {
        assert(pushed.drop_first() =~= seq![last]);
        assert(chain_text(seq![last]) == last);
        assert(chain_text(pushed) =~= chain_text(segments) + ": "@ + last);
    } else {
        lemma_chain_text_push(segments.drop_first(), last);
        assert(pushed.drop_first() =~= segments.drop_first().push(last));
        assert(chain_text(pushed) =~= chain_text(segments) + ": "@ + last);
    }
}

/// Where segment `i` starts inside the expanded rendering of a chain: the
/// lengths of the segments before it, plus one delimiter for each.
pub open spec fn chain_offset(segments: Seq<Seq<char>>, i: int) -> int
    decreases i,
{
    if i <= 0 {
        0
    } else {
        chain_offset(segments, i - 1) + segments[i - 1].len() + ": "@.len()
    }
}

/// The offset of segment `i` in a chain equals the offset of segment
/// `i - 1` in the chain's tail, shifted past the head segment and one
/// delimiter.
proof fn lemma_chain_offset_shift(segments: Seq<Seq<char>>, i: int)
    requires
        segments.len() >= 1,
        1 <= i < segments.len(),
    ensures
        chain_offset(segments, i) == segments[0].len() + ": "@.len() + chain_offset(
            segments.drop_first(),
            i - 1,
        ),
    decreases i,
{
    let rest = segments.drop_first();
    if i == 1 {
        assert(chain_offset(segments, 0) == 0);
        assert(chain_offset(segments, 1) == segments[0].len() + ": "@.len());
        assert(chain_offset(rest, 0) == 0);
    } else {
        lemma_chain_offset_shift(segments, i - 1);
        assert(rest[i - 2] == segments[i - 1]);
        assert(chain_offset(rest, i - 1) == chain_offset(rest, i - 2) + rest[i - 2].len()
            + ": "@.len());
        assert(chain_offset(segments, i) == chain_offset(segments, i - 1) + segments[i - 1].len()
            + ": "@.len());
    }
}

proof fn lemma_chain_text_segment_at(segments: Seq<Seq<char>>, i: int)
    requires
        segments.len() >= 1,
        0 <= i < segments.len(),
    ensures
        0 <= chain_offset(segments, i),
        chain_offset(segments, i) + segments[i].len() <= chain_text(segments).len(),
        chain_text(segments).subrange(
            chain_offset(segments, i),
            chain_offset(segments, i) + segments[i].len() as int,
        ) == segments[i],
        i >= 1 ==> chain_offset(segments, i) >= ": "@.len() && chain_text(segments).subrange(
            chain_offset(segments, i) - ": "@.len(),
            chain_offset(segments, i),
        ) == ": "@,
    decreases segments.len(),
{
    let text = chain_text(segments);
    let off = chain_offset(segments, i);
    let delim: Seq<char> = ": "@;
    if segments.len() == 1 {
        assert(text.subrange(0, segments[0].len() as int) =~= segments[0]);
    } else if i == 0 {
        assert(text.subrange(0, segments[0].len() as int) =~= segments[0]);
    } else {
        let rest = segments.drop_first();
        lemma_chain_text_segment_at(rest, i - 1);
        lemma_chain_offset_shift(segments, i);
        let rest_off = chain_offset(rest, i - 1);
        assert(rest[i - 1] == segments[i]);
        assert(text =~= (segments[0] + delim) + chain_text(rest));
        assert(text.subrange(off, off + segments[i].len() as int) =~= chain_text(rest).subrange(
            rest_off,
            rest_off + segments[i].len() as int,
        ));
        if i == 1 {
            assert(text.subrange(off - delim.len(), off) =~= delim);
        } else {
            assert(text.subrange(off - delim.len(), off) =~= chain_text(rest).subrange(
                rest_off - delim.len(),
                rest_off,
            ));
        }
    }
}

/// Law: in the expanded rendering of a causal chain of depth at least two,
/// every segment appears in full, outer to inner at increasing offsets,
/// and each segment after the first is preceded by the delimiter `": "` —
/// never only the outermost segment.
pub proof fn lemma_chain_text_has_every_segment(segments: Seq<Seq<char>>, i: int)
    requires
        segments.len() >= 2,
        0 <= i < segments.len(),
    ensures
        0 <= chain_offset(segments, i),
        chain_offset(segments, i) + segments[i].len() <= chain_text(segments).len(),
        chain_text(segments).subrange(
            chain_offset(segments, i),
            chain_offset(segments, i) + segments[i].len() as int,
        ) == segments[i],
        i >= 1 ==> chain_offset(segments, i - 1) < chain_offset(segments, i)
            && chain_text(segments).subrange(
            chain_offset(segments, i) - ": "@.len(),
            chain_offset(segments, i),
        ) == ": "@,
{
    lemma_chain_text_segment_at(segments, i);
    if i >= 1 {
        reveal_strlit(": ");
    }
}

/// Joins the segments of a causal chain, outer first, into its expanded
/// rendering.
pub fn render_chain(segments: &Vec<String>) -> (r: String)
    ensures
        r@ == chain_text(seq_views(segments@)),
{
    if segments.len() == 0 {
        return String::new();
    }
    let mut r = segments[0].clone();
    let mut i: usize = 1;
    while i < segments.len()
        invariant
            1 <= i <= segments@.len(),
            r@ == chain_text(seq_views(segments@).take(i as int)),
        decreases segments@.len() - i,
    {
        r.append(": ");
        r.append(segments[i].as_str());
        proof {
            let views = seq_views(segments@);
            lemma_chain_text_push(views.take(i as int), segments@[i as int]@);
            assert(views.take(i + 1) =~= views.take(i as int).push(segments@[i as int]@));
            assert(r@ =~= chain_text(views.take(i + 1)));
        }
        i += 1;
    }
    proof {
        assert(seq_views(segments@).take(segments@.len() as int) =~= seq_views(segments@));
    }
    r
}

/// Builds the abort payload for a failure that exposes a causal chain:
/// the frame of [`diagnostic_message`] around the expanded rendering of
/// the chain's segments, outer first.
pub fn chain_diagnostic(label: &str, segments: &Vec<String>) -> (r: String)
    ensures
        r@ == diagnostic_text(label@, chain_text(seq_views(segments@))),
{
    let rendered = render_chain(segments);
    diagnostic_message(label, rendered.as_str())
}

} // verus!
