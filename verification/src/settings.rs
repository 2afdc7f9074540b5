//! Interpretation of the configuration strings: the static label list, the
//! metrics name prefix, the refresh interval with its busy-loop floor, and
//! the clock-rate fallback.

use vstd::prelude::*;

use crate::text::{parse_u64, parse_u64_bytes, strip_trailing, strip_trailing_slice, trim,
    trim_slice, views_of};

verus! {

// ---------------------------------------------------------------------------
// Comma-separated segments
// ---------------------------------------------------------------------------

/// The comma-separated segments of `s` from position `i` on, with `cur` the
/// part of the current segment already seen.  A trailing empty segment is
/// not reported; no caller distinguishes it from none.
pub open spec fn segments_from(s: Seq<u8>, i: int, cur: Seq<u8>) -> Seq<Seq<u8>>
    decreases s.len() - i,
{
    if !(0 <= i < s.len()) {
        if cur.len() > 0 {
            seq![cur]
        } else {
            Seq::empty()
        }
    } else if s[i] == 44 {
        seq![cur] + segments_from(s, i + 1, Seq::empty())
    } else {
        segments_from(s, i + 1, cur.push(s[i]))
    }
}

pub open spec fn segments(s: Seq<u8>) -> Seq<Seq<u8>> {
    segments_from(s, 0, Seq::empty())
}

/// Splits on commas.
pub fn split_commas(s: &[u8]) -> (r: Vec<Vec<u8>>)
    ensures
        views_of(r@) == segments(s@),
{
    let mut r: Vec<Vec<u8>> = Vec::new();
    let mut cur: Vec<u8> = Vec::new();
    let mut i: usize = 0;
    while i < s.len()
        invariant
            i <= s@.len(),
            segments(s@) == views_of(r@) + segments_from(s@, i as int, cur@),
        decreases s@.len() - i,
    {
        let b = s[i];
        if b == 44 {
            let ghost prev = cur@;
            r.push(cur);
            cur = Vec::new();
            proof {
                assert(views_of(r@) =~= views_of(r@.drop_last()).push(prev));
                assert(views_of(r@.drop_last()) + (seq![prev] + segments_from(
                    s@,
                    i + 1,
                    Seq::empty(),
                )) =~= views_of(r@) + segments_from(s@, i + 1, cur@));
            }
        } else {
            cur.push(b);
        }
        i += 1;
    }
    if cur.len() > 0 {
        let ghost prev = cur@;
        r.push(cur);
        proof {
            assert(views_of(r@) =~= views_of(r@.drop_last()).push(prev));
            assert(views_of(r@.drop_last()) + seq![prev] =~= views_of(r@));
        }
        r
    } else {
        proof {
            assert(views_of(r@) + Seq::<Seq<u8>>::empty() =~= views_of(r@));
        }
        r
    }
}

// ---------------------------------------------------------------------------
// Static labels
// ---------------------------------------------------------------------------

/// The bytes before and after the first `=`, if the sequence has one.
pub open spec fn split_at_eq(s: Seq<u8>) -> Option<(Seq<u8>, Seq<u8>)>
    decreases s.len(),
{
    if s.len() == 0 {
        None
    } else if s[0] == 61 {
        Some((Seq::empty(), s.drop_first()))
    } else {
        match split_at_eq(s.drop_first()) {
            Some(p) => Some((seq![s[0]] + p.0, p.1)),
            None => None,
        }
    }
}

proof fn lemma_split_at_eq(s: Seq<u8>, c: int)
    requires
        0 <= c <= s.len(),
        forall|j: int| 0 <= j < c ==> s[j] != 61,
        c < s.len() ==> s[c] == 61,
    ensures
        c == s.len() ==> split_at_eq(s) is None,
        c < s.len() ==> split_at_eq(s) == Some(
            (s.subrange(0, c), s.subrange(c + 1, s.len() as int)),
        ),
    decreases s.len(),
{
    if s.len() == 0 {
    } else if c == 0 {
        assert(s.subrange(0, 0) =~= Seq::empty());
        assert(s.drop_first() =~= s.subrange(1, s.len() as int));
    } else {
        lemma_split_at_eq(s.drop_first(), c - 1);
        if c < s.len() {
            assert(seq![s[0]] + s.drop_first().subrange(0, c - 1) =~= s.subrange(0, c));
            assert(s.drop_first().subrange(c, s.len() - 1) =~= s.subrange(c + 1, s.len() as int));
        }
    }
}

/// Splits a slice at its first `=`.
fn split_at_eq_slice(s: &[u8]) -> (r: Option<(&[u8], &[u8])>)
    ensures
        match r {
            Some(p) => split_at_eq(s@) == Some((p.0@, p.1@)),
            None => split_at_eq(s@) is None,
        },
{
    let mut c: usize = 0;
    while c < s.len() && s[c] != 61
        invariant
            c <= s@.len(),
            forall|j: int| 0 <= j < c ==> s@[j] != 61,
        decreases s@.len() - c,
    {
        c += 1;
    }
    proof {
        lemma_split_at_eq(s@, c as int);
    }
    if c == s.len() {
        None
    } else {
        Some((&s[0..c], &s[c + 1..s.len()]))
    }
}

/// The label pair one segment denotes: key and value around the first `=`,
/// both trimmed; nothing without an `=` or with an empty key.
pub open spec fn label_pair_of(seg: Seq<u8>) -> Option<(Seq<u8>, Seq<u8>)> {
    let t = trim(seg);
    if t.len() == 0 {
        None
    } else {
        match split_at_eq(t) {
            Some(p) => if trim(p.0).len() > 0 {
                Some((trim(p.0), trim(p.1)))
            } else {
                None
            },
            None => None,
        }
    }
}

/// The label pairs of the comma-separated segments from `i` on, in order.
pub open spec fn labels_from(segs: Seq<Seq<u8>>, i: int) -> Seq<(Seq<u8>, Seq<u8>)>
    decreases segs.len() - i,
{
    if !(0 <= i < segs.len()) {
        Seq::empty()
    } else {
        match label_pair_of(segs[i]) {
            Some(p) => seq![p] + labels_from(segs, i + 1),
            None => labels_from(segs, i + 1),
        }
    }
}

/// The label pairs a configuration string denotes.  A later pair with the
/// same key overrides an earlier one when the caller folds the list into a
/// map, exactly as repeated insertion would.
pub open spec fn labels_of(s: Seq<u8>) -> Seq<(Seq<u8>, Seq<u8>)> {
    labels_from(segments(s), 0)
}

/// The views of a list of label pairs.
pub open spec fn label_views(ps: Seq<(Vec<u8>, Vec<u8>)>) -> Seq<(Seq<u8>, Seq<u8>)> {
    ps.map_values(|p: (Vec<u8>, Vec<u8>)| (p.0@, p.1@))
}

/// Reads a `k1=v1,k2=v2` configuration string as a list of label pairs:
/// keys and values trimmed, segments without `=` or with an empty key
/// dropped.
pub fn parse_static_labels(s: &[u8]) -> (r: Vec<(Vec<u8>, Vec<u8>)>)
    ensures
        label_views(r@) == labels_of(s@),
{
    let segs = split_commas(s);
    let mut r: Vec<(Vec<u8>, Vec<u8>)> = Vec::new();
    let mut i: usize = 0;
    while i < segs.len()
        invariant
            i <= segs@.len(),
            views_of(segs@) == segments(s@),
            labels_of(s@) == label_views(r@) + labels_from(segments(s@), i as int),
        decreases segs@.len() - i,
    {
        let ghost sg = segments(s@)[i as int];
        proof {
            assert(views_of(segs@)[i as int] == segs@[i as int]@);
        }
        let t = trim_slice(segs[i].as_slice());
        if t.len() > 0 {
            match split_at_eq_slice(t) {
                Some((k, v)) => {
                    let kt = trim_slice(k);
                    let vt = trim_slice(v);
                    if kt.len() > 0 {
                        let ghost prev = r@;
                        let mut kv: Vec<u8> = Vec::new();
                        kv.extend_from_slice(kt);
                        let mut vv: Vec<u8> = Vec::new();
                        vv.extend_from_slice(vt);
                        proof {
                            assert(kv@ =~= kt@);
                            assert(vv@ =~= vt@);
                        }
                        r.push((kv, vv));
                        proof {
                            assert(label_views(r@) =~= label_views(prev).push((trim(
                                split_at_eq(trim(sg)).unwrap().0,
                            ), trim(split_at_eq(trim(sg)).unwrap().1))));
                            assert(label_views(prev) + (seq![
                                label_pair_of(sg).unwrap(),
                            ] + labels_from(segments(s@), i + 1)) =~= label_views(r@)
                                + labels_from(segments(s@), i + 1));
                        }
                    }
                },
                None => {
                },
            }
        }
        i += 1;
    }
    r
}

// ---------------------------------------------------------------------------
// Metrics prefix
// ---------------------------------------------------------------------------

/// The prefix a raw configuration value denotes: trimmed, every trailing
/// underscore removed, and dropped entirely when nothing is left.
pub open spec fn prefix_of(raw: Seq<u8>) -> Option<Seq<u8>> {
    let t = trim(raw);
    if t.len() == 0 {
        None
    } else {
        let u = strip_trailing(t, 95);
        if u.len() == 0 {
            None
        } else {
            Some(u)
        }
    }
}

/// Normalizes a configured metrics prefix.
pub fn normalize_prefix(raw: &[u8]) -> (r: Option<Vec<u8>>)
    ensures
        match r {
            Some(v) => prefix_of(raw@) == Some(v@),
            None => prefix_of(raw@) is None,
        },
{
    let t = trim_slice(raw);
    if t.len() == 0 {
        return None;
    }
    let u = strip_trailing_slice(t, 95);
    if u.len() == 0 {
        return None;
    }
    let mut v: Vec<u8> = Vec::new();
    v.extend_from_slice(u);
    proof {
        assert(v@ =~= u@);
    }
    Some(v)
}

// ---------------------------------------------------------------------------
// Refresh interval and clock rate
// ---------------------------------------------------------------------------

/// The refresh interval a raw configuration value denotes: 5 seconds when
/// unset or unreadable, and never below the 1-second busy-loop floor.
pub open spec fn interval_of(raw: Option<Seq<u8>>) -> u64 {
    let parsed = match raw {
        Some(s) => match parse_u64(s) {
            Some(v) => v,
            None => 5,
        },
        None => 5,
    };
    if parsed < 1 {
        1
    } else {
        parsed
    }
}

/// Reads the refresh interval setting.
pub fn update_interval(raw: Option<&[u8]>) -> (r: u64)
    ensures
        r == interval_of(match raw {
            Some(s) => Some(s@),
            None => None,
        }),
        r >= 1,
{
    let parsed: u64 = match raw {
        Some(s) => match parse_u64_bytes(s) {
            Some(v) => v,
            None => 5,
        },
        None => 5,
    };
    if parsed < 1 {
        1
    } else {
        parsed
    }
}

/// The clock rate to convert ticks with: what the platform reports, or the
/// conventional 100 ticks per second when the report is absent or absurd.
pub fn effective_tick_rate(reported: i64) -> (r: u64)
    ensures
        reported <= 0 ==> r == 100,
        reported > 0 ==> r == reported,
        r >= 1,
{
    if reported <= 0 {
        100
    } else {
        reported as u64
    }
}

} // verus!
