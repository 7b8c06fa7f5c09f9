//! Pagination of GitHub API replies.
use vstd::prelude::*;

use crate::text::{
    contains_seq, find_char, find_char_in, lemma_find_char_props, pieces, range_contains,
    split_ranges, split_seq, str_chars, string_of_range, trim_range, trim_seq,
};

verus! {

broadcast use vstd::string::group_string_axioms;

/// The first comma-separated part of a `Link` header that names `rel="next"`, trimmed.
pub open spec fn next_part(parts: Seq<Seq<char>>) -> Option<Seq<char>>
    decreases parts.len(),
{
    if parts.len() == 0 {
        None
    } else {
        match next_part(parts.drop_last()) {
            Some(p) => Some(p),
            None => if contains_seq(trim_seq(parts.last()), "rel=\"next\""@) {
                Some(trim_seq(parts.last()))
            } else {
                None
            },
        }
    }
}

/// What `parse_link_next` returns: the text between `<` and `>` of the `rel="next"` part.
pub open spec fn spec_parse_link_next(header: Option<Seq<char>>) -> Option<Seq<char>> {
    match header {
        None => None,
        Some(h) => match next_part(split_seq(h, ',')) {
            None => None,
            Some(p) => match (find_char(p, '<'), find_char(p, '>')) {
                (Some(a), Some(b)) => Some(p.subrange(a + 1, b)),
                _ => None,
            },
        },
    }
}

/// The headers on which `parse_link_next` does not fail: in the `rel="next"` part, a `>`
/// does not come before the first `<`.
pub open spec fn link_next_defined(header: Option<Seq<char>>) -> bool {
    match header {
        None => true,
        Some(h) => match next_part(split_seq(h, ',')) {
            None => true,
            Some(p) => match (find_char(p, '<'), find_char(p, '>')) {
                (Some(a), Some(b)) => a + 1 <= b,
                _ => true,
            },
        },
    }
}

/// Extract the `rel="next"` URL from a `Link` header, if any.
pub fn parse_link_next(header: Option<&str>) -> (r: Option<String>)
    requires
        link_next_defined(match header {
            Some(h) => Some(h@),
            None => None,
        }),
    ensures
        match (r, spec_parse_link_next(match header {
            Some(h) => Some(h@),
            None => None,
        })) {
            (Some(a), Some(b)) => a@ == b,
            (None, None) => true,
            _ => false,
        },
{
    match header {
        Some(h) => link_next_of(h),
        None => None,
    }
}

/// `parse_link_next` on a present header.
fn link_next_of(h: &str) -> (r: Option<String>)
    requires
        link_next_defined(Some(h@)),
    ensures
        match (r, spec_parse_link_next(Some(h@))) {
            (Some(a), Some(b)) => a@ == b,
            (None, None) => true,
            _ => false,
        },
{
    let s = str_chars(h);
    assert(s@.subrange(0, s.len() as int) =~= s@);
    let parts = split_ranges(&s, 0, s.len(), ',');
    let ghost ps = pieces(s@, parts@);
    let pattern = str_chars("rel=\"next\"");
    let mut k: usize = 0;
    while k < parts.len()
        invariant
            k <= parts.len(),
            ps == pieces(s@, parts@),
            ps == split_seq(s@, ','),
            crate::text::ranges_within(parts@, 0, s.len() as int),
            pattern@ == "rel=\"next\""@,
            s@ == h@,
            link_next_defined(Some(h@)),
            next_part(ps.take(k as int)) is None,
        decreases parts.len() - k,
    {
        let (a, b) = parts[k];
        assert(0 <= parts@[k as int].0 <= parts@[k as int].1 <= s.len());
        assert(ps.take(k + 1).drop_last() =~= ps.take(k as int));
        assert(ps.take(k + 1).last() == s@.subrange(a as int, b as int));
        let (ta, tb) = trim_range(&s, a, b);
        if range_contains(&s, ta, tb, &pattern) {
            proof {
                next_part_prefix(ps, k + 1);
            }
            let ghost p = s@.subrange(ta as int, tb as int);
            assert(next_part(ps.take(k + 1)) == Some(p));
            assert(next_part(ps) == Some(p));
            proof {
                lemma_find_char_props(p, '<');
                lemma_find_char_props(p, '>');
            }
            let ghost hv: Option<Seq<char>> = Some(h@);
            assert(split_seq(h@, ',') == ps);
            let start = match find_char_in(&s, ta, tb, '<') {
                Some(i) => i + 1,
                None => {
                    assert(spec_parse_link_next(hv) is None);
                    return None;
                },
            };
            let end = match find_char_in(&s, ta, tb, '>') {
                Some(i) => i,
                None => {
                    assert(spec_parse_link_next(hv) is None);
                    return None;
                },
            };
            assert(p.subrange(start - 1 - ta + 1, end - ta) =~= s@.subrange(start as int, end as int));
            return Some(string_of_range(&s, start, end));
        }
        k = k + 1;
    }
    assert(ps.take(parts.len() as int) =~= ps);
    None
}

proof fn next_part_prefix(ps: Seq<Seq<char>>, k: int)
    requires
        0 <= k <= ps.len(),
        next_part(ps.take(k)) is Some,
    ensures
        next_part(ps) == next_part(ps.take(k)),
    decreases ps.len() - k,
{
    if k < ps.len() {
        assert(ps.take(k + 1).drop_last() =~= ps.take(k));
        next_part_prefix(ps, k + 1);
    } else {
        assert(ps.take(k) =~= ps);
    }
}


// ---------------------------------------------------------------------------
// Waiting for statistics
// ---------------------------------------------------------------------------

/// The shape of a statistics reply: GitHub answers 202 with an empty object while it is
/// still computing the statistics.
#[derive(Debug, Clone, Copy, PartialEq, Eq, Structural)]
pub enum ReplyShape {
    Array,
    NonEmptyObject,
    /// Anything else: an empty object, `null`, a number or a string.
    Other,
}

/// What to do after attempt `attempt` (counted from 0) of fetching statistics.
#[derive(Debug, Clone, Copy, PartialEq, Eq, Structural)]
pub enum RetryStep {
    /// The reply holds the statistics.
    Accept,
    /// Not ready yet: wait this many seconds, then fetch again.
    WaitThenRetry(u64),
    /// Not ready after the last attempt.
    GiveUp,
}

/// The decision after attempt `attempt` of `max_retries`: accept an array or a non-empty
/// object; otherwise wait `2^attempt` seconds (1 s, 2 s, 4 s, ...) and try again, unless this
/// was the last attempt.
pub open spec fn spec_retry_step(attempt: nat, max_retries: nat, reply: ReplyShape) -> RetryStep {
    if reply != ReplyShape::Other {
        RetryStep::Accept
    } else if attempt + 1 < max_retries {
        RetryStep::WaitThenRetry(vstd::arithmetic::power2::pow2(attempt) as u64)
    } else {
        RetryStep::GiveUp
    }
}

/// Decides, after one attempt of fetching statistics, whether the reply is ready, whether
/// to wait and try again, or whether to give up. A loop that performs the fetches and the
/// waits runs `max_retries` attempts at most (none when it is 0).
pub fn retry_step(attempt: u32, max_retries: u32, reply: ReplyShape) -> (r: RetryStep)
    requires
        attempt < max_retries,
        attempt + 1 < max_retries ==> attempt < 64,
    ensures
        r == spec_retry_step(attempt as nat, max_retries as nat, reply),
{
    match reply {
        ReplyShape::Array | ReplyShape::NonEmptyObject => RetryStep::Accept,
        ReplyShape::Other => {
            if attempt + 1 < max_retries {
                let secs: u64 = 1u64 << attempt;
                proof {
                    vstd::arithmetic::power2::lemma2_to64_rest();
                    if attempt < 63 {
                        vstd::arithmetic::power2::lemma_pow2_strictly_increases(attempt as nat, 63);
                    }
                    assert(1u64 << attempt == vstd::arithmetic::power2::pow2(attempt as nat)) by {
                        vstd::bits::lemma_u64_shl_is_mul(1, attempt as u64);
                    }
                }
                RetryStep::WaitThenRetry(secs)
            } else {
                RetryStep::GiveUp
            }
        },
    }
}

} // verus!

